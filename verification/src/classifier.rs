//! The name tokens behind a run of chunks, and what each of them is: a new
//! item, an attachment of the item before it, or the end of the run.
//!
//! Nothing in the format says which is which. The rules below are the whole
//! of what is known: they go by the text of a token, by the item in front of
//! it and by the distance to the token before it.

use crate::bytes::{
    contains_ignoring_case, copy_range, occurs_ignoring_case, read_u16_le, same_bytes,
    u16_from_le,
};
use crate::chunks::{is_savegame_between, savegame_between};
use crate::error::SaveError;
use crate::markers::{
    sgds, sgds_text, token_pattern, token_pattern_text, MOD_SLOTS, SGDS_WIDTH, TRANSMOG_GAP,
};
use crate::scanner::{find_first, first_match, lemma_first_match_is_lowest};
use crate::text::{find_pattern_matches, pattern_matches};
use vstd::prelude::*;
use vstd::slice::{slice_subrange, slice_to_vec};
use vstd::string::*;

verus! {

/// What a name token is.
#[derive(Clone, Copy, Debug, PartialEq, Eq, Structural)]
pub enum TokenKind {
    /// The token names a new inventory item.
    NewItem,
    /// The token is a mod of the item before it.
    Mod,
    /// The token is a cosmetic override of the outfit before it.
    TransmogContinuation,
    /// The token no longer belongs to the run.
    EndOfRun,
}

/// A name token of a run: its text, where it stands and what it is.
#[derive(Debug, Clone)]
pub struct NameToken {
    pub text: Vec<u8>,
    pub index: usize,
    pub kind: TokenKind,
}

/// A name token as a mathematical value.
pub struct NameTokenView {
    pub text: Seq<u8>,
    pub index: int,
    pub kind: TokenKind,
}

impl View for NameToken {
    type V = NameTokenView;

    open spec fn view(&self) -> NameTokenView {
        NameTokenView { text: self.text@, index: self.index as int, kind: self.kind }
    }
}

impl DeepView for NameToken {
    type V = NameTokenView;

    open spec fn deep_view(&self) -> NameTokenView {
        self.view()
    }
}

/// What the scan of a run remembers from one token to the next.
#[derive(Debug, Clone)]
pub struct RunState {
    /// Where the search for the next token starts: behind the token that was
    /// accepted last, or at the start of the run.
    pub cursor: usize,
    /// The text of the item that was started last; empty before the first.
    pub established: Vec<u8>,
    /// The text of the token that was accepted last; empty before the first.
    pub previous: Vec<u8>,
    /// How many attachments followed the item that was started last.
    pub mods: usize,
    /// How many items were started.
    pub items: usize,
}

/// The state of a scan as a mathematical value.
pub struct RunStateView {
    pub cursor: int,
    pub established: Seq<u8>,
    pub previous: Seq<u8>,
    pub mods: int,
    pub items: int,
}

impl View for RunState {
    type V = RunStateView;

    open spec fn view(&self) -> RunStateView {
        RunStateView {
            cursor: self.cursor as int,
            established: self.established@,
            previous: self.previous@,
            mods: self.mods as int,
            items: self.items as int,
        }
    }
}

impl RunStateView {
    /// The state in front of the first token of a run that starts at `start`.
    pub open spec fn initial(start: int) -> RunStateView {
        RunStateView {
            cursor: start,
            established: Seq::empty(),
            previous: Seq::empty(),
            mods: 0,
            items: 0,
        }
    }

    /// The state behind an accepted token.
    pub open spec fn advance(self, token: NameTokenView) -> RunStateView {
        RunStateView {
            cursor: token.index + token.text.len(),
            established: if token.kind == TokenKind::NewItem {
                token.text
            } else {
                self.established
            },
            previous: token.text,
            mods: if token.kind == TokenKind::NewItem {
                0
            } else {
                self.mods + 1
            },
            items: if token.kind == TokenKind::NewItem {
                self.items + 1
            } else {
                self.items
            },
        }
    }
}

/// The token can name an item: it holds neither "mod" nor "charm", in
/// whatever case.
pub open spec fn is_item_candidate(text: Seq<u8>) -> bool {
    &&& !occurs_ignoring_case("mod".spec_bytes(), text)
    &&& !occurs_ignoring_case("charm".spec_bytes(), text)
}

/// The name is that of a weapon with an ammunition slot: a bow, a gun, a
/// harpoon, or a firearm that is not itself a bullet.
pub open spec fn has_ammo_slot(name: Seq<u8>) -> bool {
    ||| occurs_ignoring_case("bow".spec_bytes(), name)
    ||| (occurs_ignoring_case("firearm".spec_bytes(), name) && !occurs_ignoring_case(
        "bullet".spec_bytes(),
        name,
    ))
    ||| occurs_ignoring_case("gun".spec_bytes(), name)
    ||| occurs_ignoring_case("harpoon".spec_bytes(), name)
}

/// The token fills the ammunition slot of the item before it: it is a bullet
/// or a craft plan, and that item has such a slot.
pub open spec fn is_slot_of_weapon(current: Seq<u8>, established: Seq<u8>) -> bool {
    &&& (occurs_ignoring_case("bullet".spec_bytes(), current) || occurs_ignoring_case(
        "craftplan".spec_bytes(),
        current,
    ))
    &&& has_ammo_slot(established)
}

/// The token is an outfit that stands at most 30 bytes behind another outfit.
pub open spec fn is_transmog(current: Seq<u8>, at: int, previous: Seq<u8>, previous_end: int)
    -> bool {
    &&& occurs_ignoring_case("outfit".spec_bytes(), current)
    &&& occurs_ignoring_case("outfit".spec_bytes(), previous)
    &&& previous_end <= at
    &&& at - previous_end <= TRANSMOG_GAP
}

/// The decision table for one token. `matched` is the text that the pattern
/// matched and `current` the full text of the token; `state` is what the
/// tokens before it left, `amount` the number of items that the run may
/// hold, and `savegame_before` tells that the token lies behind the start of
/// another section. The first rule that applies decides.
pub open spec fn token_kind(
    matched: Seq<u8>,
    current: Seq<u8>,
    at: int,
    state: RunStateView,
    amount: int,
    savegame_before: bool,
) -> TokenKind {
    if savegame_before {
        TokenKind::EndOfRun
    } else if matched == sgds() {
        if state.mods == MOD_SLOTS {
            TokenKind::Mod
        } else {
            TokenKind::EndOfRun
        }
    } else if !is_item_candidate(current) {
        TokenKind::Mod
    } else if is_slot_of_weapon(current, state.established) {
        TokenKind::Mod
    } else if is_transmog(current, at, state.previous, state.cursor) {
        TokenKind::TransmogContinuation
    } else if state.items >= amount {
        TokenKind::EndOfRun
    } else {
        TokenKind::NewItem
    }
}

/// The size that the two bytes in front of a token declare for its name; 0
/// where the token has no two bytes in front of it.
pub open spec fn declared_size(content: Seq<u8>, at: int) -> int {
    if 2 <= at <= content.len() {
        u16_from_le(content.subrange(at - 2, at)) as int
    } else {
        0
    }
}

/// The full text of the token that was matched at `at`. Where the declared
/// size is larger than the matched text, the pattern has missed a part of the
/// name: the text then is the declared number of bytes and the four of
/// "SGDs", if the buffer holds that many. A bare "SGDs" is always its own text.
pub open spec fn full_text(content: Seq<u8>, at: int, matched: Seq<u8>) -> Seq<u8> {
    let size = declared_size(content, at);
    if matched != sgds() && size > matched.len() && at + size + SGDS_WIDTH <= content.len() {
        content.subrange(at, at + size + SGDS_WIDTH)
    } else {
        matched
    }
}

/// What the scan makes of one match: the token, or nothing where the run
/// ends. The match is looked up from the cursor on; a match that cannot be
/// found ends the run.
pub open spec fn next_token_spec(
    content: Seq<u8>,
    start: int,
    amount: int,
    state: RunStateView,
    matched: Seq<u8>,
) -> Option<NameTokenView> {
    match first_match(content, state.cursor, matched) {
        Some(at) => {
            let current = full_text(content, at, matched);
            let kind = token_kind(
                matched,
                current,
                at,
                state,
                amount,
                savegame_between(content, start, at),
            );
            if kind == TokenKind::EndOfRun {
                None
            } else {
                Some(NameTokenView { text: current, index: at, kind })
            }
        },
        None => None,
    }
}

/// The tokens of a run: what the scan makes of the matches `texts`, one after
/// the other, up to the first at which the run ends.
pub open spec fn run_tokens(
    content: Seq<u8>,
    start: int,
    amount: int,
    state: RunStateView,
    texts: Seq<Seq<u8>>,
) -> Seq<NameTokenView>
    decreases texts.len(),
{
    if texts.len() == 0 {
        Seq::empty()
    } else {
        match next_token_spec(content, start, amount, state, texts[0]) {
            Some(token) => seq![token] + run_tokens(
                content,
                start,
                amount,
                state.advance(token),
                texts.drop_first(),
            ),
            None => Seq::empty(),
        }
    }
}

/// What `find_amount_of_matches` returns.
pub open spec fn amount_of_matches(content: Seq<u8>, start: int, amount: int) -> Result<
    Seq<NameTokenView>,
    SaveError,
> {
    if start > content.len() {
        Ok(Seq::empty())
    } else {
        match pattern_matches(token_pattern(), content.skip(start)) {
            Ok(texts) => Ok(
                run_tokens(content, start, amount, RunStateView::initial(start), texts),
            ),
            Err(error) => Err(error),
        }
    }
}

/// A result of tokens as mathematical values.
pub open spec fn tokens_result_view(result: Result<Vec<NameToken>, SaveError>) -> Result<
    Seq<NameTokenView>,
    SaveError,
> {
    match result {
        Ok(tokens) => Ok(tokens.deep_view()),
        Err(error) => Err(error),
    }
}

/// The number of tokens that start an item.
pub open spec fn count_items(tokens: Seq<NameTokenView>) -> int
    decreases tokens.len(),
{
    if tokens.len() == 0 {
        0
    } else {
        count_items(tokens.drop_last()) + if tokens.last().kind == TokenKind::NewItem {
            1int
        } else {
            0int
        }
    }
}

/// The token describes the buffer: its text stands in the buffer at its
/// offset.
pub open spec fn token_lies_in(token: NameTokenView, content: Seq<u8>) -> bool {
    &&& 0 <= token.index
    &&& token.index + token.text.len() <= content.len()
    &&& content.subrange(token.index, token.index + token.text.len()) =~= token.text
}

/// The tokens of a run describe the buffer, at or behind the cursor.
pub open spec fn tokens_in_bounds(tokens: Seq<NameTokenView>, from: int, content: Seq<u8>)
    -> bool {
    forall|k: int|
        0 <= k < tokens.len() ==> from <= (#[trigger] tokens[k]).index && token_lies_in(
            tokens[k],
            content,
        )
}

/// A token that holds "mod" or "charm", in whatever case, never starts an
/// item, and inside a run it is an attachment wherever it stands.
pub proof fn lemma_attachment_never_starts_item(
    matched: Seq<u8>,
    current: Seq<u8>,
    at: int,
    state: RunStateView,
    amount: int,
    savegame_before: bool,
)
    requires
        !is_item_candidate(current),
    ensures
        token_kind(matched, current, at, state, amount, savegame_before) != TokenKind::NewItem,
        !savegame_before && matched != sgds() ==> token_kind(
            matched,
            current,
            at,
            state,
            amount,
            savegame_before,
        ) == TokenKind::Mod,
{
}

/// A token starts an item only if none of the other rules applies to it: it
/// lies in front of the next section, it is no bare "SGDs", it holds neither
/// "mod" nor "charm", it fills no slot of the item before it, it is no
/// override of the outfit before it, and the run is not yet full.
pub proof fn lemma_item_is_the_last_resort(
    matched: Seq<u8>,
    current: Seq<u8>,
    at: int,
    state: RunStateView,
    amount: int,
    savegame_before: bool,
)
    ensures
        token_kind(matched, current, at, state, amount, savegame_before) == TokenKind::NewItem
            <==> {
            &&& !savegame_before
            &&& matched != sgds()
            &&& is_item_candidate(current)
            &&& !is_slot_of_weapon(current, state.established)
            &&& !is_transmog(current, at, state.previous, state.cursor)
            &&& state.items < amount
        },
{
}

/// A run never starts more items than it may hold: the count of its item
/// tokens, together with those counted before, stays within `amount`. And
/// every token lies inside the buffer behind the cursor.
pub proof fn lemma_run_tokens_bounds(
    content: Seq<u8>,
    start: int,
    amount: int,
    state: RunStateView,
    texts: Seq<Seq<u8>>,
)
    requires
        0 <= state.items <= amount,
        0 <= start <= state.cursor,
    ensures
        state.items + count_items(run_tokens(content, start, amount, state, texts)) <= amount,
        tokens_in_bounds(run_tokens(content, start, amount, state, texts), state.cursor, content),
    decreases texts.len(),
{
    let tokens = run_tokens(content, start, amount, state, texts);
    if texts.len() == 0 {
    } else {
        match next_token_spec(content, start, amount, state, texts[0]) {
            Some(token) => {
                let next = state.advance(token);
                let rest = run_tokens(content, start, amount, next, texts.drop_first());
                lemma_first_match_is_lowest(content, state.cursor, texts[0]);
                lemma_run_tokens_bounds(content, start, amount, next, texts.drop_first());
                assert(tokens =~= seq![token] + rest);
                lemma_count_items_prepend(token, rest);
                assert forall|k: int| 0 <= k < tokens.len() implies state.cursor <= (
                #[trigger] tokens[k]).index && token_lies_in(tokens[k], content) by {
                    if k > 0 {
                        assert(tokens[k] == rest[k - 1]);
                    }
                }
            },
            None => {},
        }
    }
}

/// Counting item tokens from the front.
pub proof fn lemma_count_items_prepend(token: NameTokenView, rest: Seq<NameTokenView>)
    ensures
        count_items(seq![token] + rest) == count_items(rest) + if token.kind
            == TokenKind::NewItem {
            1int
        } else {
            0int
        },
    decreases rest.len(),
{
    let all = seq![token] + rest;
    if rest.len() == 0 {
        assert(all.drop_last() =~= Seq::<NameTokenView>::empty());
        assert(count_items(all.drop_last()) == 0);
    } else {
        assert(all.drop_last() =~= seq![token] + rest.drop_last());
        assert(all.last() == rest.last());
        lemma_count_items_prepend(token, rest.drop_last());
    }
}

/// Tells whether a token can name an item: whether it holds neither "mod"
/// nor "charm".
pub fn validate_item_or_mod(current_match: &[u8]) -> (is_item: bool)
    ensures
        is_item == is_item_candidate(current_match@),
{
    !contains_ignoring_case(current_match, "mod".as_bytes()) && !contains_ignoring_case(
        current_match,
        "charm".as_bytes(),
    )
}

/// Tells whether a token fills the ammunition slot of the item before it.
pub fn validate_item_or_transmog(current_match: &[u8], last_match: &[u8]) -> (is_slot: bool)
    ensures
        is_slot == is_slot_of_weapon(current_match@, last_match@),
{
    let is_ammo: bool = contains_ignoring_case(current_match, "bullet".as_bytes())
        || contains_ignoring_case(current_match, "craftplan".as_bytes());
    let has_slot: bool = contains_ignoring_case(last_match, "bow".as_bytes()) || (
    contains_ignoring_case(last_match, "firearm".as_bytes()) && !contains_ignoring_case(
        last_match,
        "bullet".as_bytes(),
    )) || contains_ignoring_case(last_match, "gun".as_bytes()) || contains_ignoring_case(
        last_match,
        "harpoon".as_bytes(),
    );
    is_ammo && has_slot
}

/// Tells whether a token is a cosmetic override of the outfit before it.
pub fn validate_transmog(
    current_match: &[u8],
    at: usize,
    previous: &[u8],
    previous_end: usize,
) -> (is_override: bool)
    ensures
        is_override == is_transmog(current_match@, at as int, previous@, previous_end as int),
{
    contains_ignoring_case(current_match, "outfit".as_bytes()) && contains_ignoring_case(
        previous,
        "outfit".as_bytes(),
    ) && previous_end <= at && at - previous_end <= TRANSMOG_GAP
}

/// Decides what a token is, by the decision table `token_kind`.
pub fn classify_token(
    matched: &[u8],
    current: &[u8],
    at: usize,
    state: &RunState,
    amount: usize,
    savegame_before: bool,
) -> (kind: TokenKind)
    ensures
        kind == token_kind(matched@, current@, at as int, state@, amount as int, savegame_before),
{
    if savegame_before {
        TokenKind::EndOfRun
    } else if same_bytes(matched, sgds_text()) {
        if state.mods == MOD_SLOTS {
            TokenKind::Mod
        } else {
            TokenKind::EndOfRun
        }
    } else if !validate_item_or_mod(current) {
        TokenKind::Mod
    } else if validate_item_or_transmog(current, state.established.as_slice()) {
        TokenKind::Mod
    } else if validate_transmog(current, at, state.previous.as_slice(), state.cursor) {
        TokenKind::TransmogContinuation
    } else if state.items >= amount {
        TokenKind::EndOfRun
    } else {
        TokenKind::NewItem
    }
}

/// Reads the full text of the token that was matched at `at`.
pub fn read_full_text(content: &[u8], at: usize, matched: &[u8]) -> (text: Vec<u8>)
    requires
        at <= content.len(),
    ensures
        text@ == full_text(content@, at as int, matched@),
{
    let size: usize = if at >= 2 {
        read_u16_le(slice_subrange(content, at - 2, at)) as usize
    } else {
        0
    };
    if !same_bytes(matched, sgds_text()) && size > matched.len() && size + SGDS_WIDTH
        <= content.len() - at {
        copy_range(content, at, at + size + SGDS_WIDTH)
    } else {
        slice_to_vec(matched)
    }
}

impl RunState {
    /// The state in front of the first token of a run.
    pub fn new(start_index: usize) -> (state: Self)
        ensures
            state@ == RunStateView::initial(start_index as int),
    {
        RunState {
            cursor: start_index,
            established: Vec::new(),
            previous: Vec::new(),
            mods: 0,
            items: 0,
        }
    }

    /// Takes an accepted token into the state.
    pub fn accept(&mut self, token: &NameToken)
        requires
            token.index + token.text@.len() <= usize::MAX,
            old(self).mods < usize::MAX,
            old(self).items < usize::MAX,
            token.kind != TokenKind::EndOfRun,
        ensures
            final(self)@ == old(self)@.advance(token@),
    {
        let end: usize = token.index + token.text.len();
        self.cursor = end;
        self.previous = slice_to_vec(token.text.as_slice());
        match token.kind {
            TokenKind::NewItem => {
                self.established = slice_to_vec(token.text.as_slice());
                self.mods = 0;
                self.items = self.items + 1;
            },
            _ => {
                self.mods = self.mods + 1;
            },
        }
    }
}

/// Makes a token of one match of the token pattern, or tells that the run
/// ends in front of it.
pub fn next_token(
    content: &[u8],
    start_index: usize,
    amount: usize,
    state: &RunState,
    matched: &[u8],
) -> (token: Option<NameToken>)
    ensures
        match token {
            Some(found) => next_token_spec(
                content@,
                start_index as int,
                amount as int,
                state@,
                matched@,
            ) == Some(found@),
            None => next_token_spec(content@, start_index as int, amount as int, state@, matched@)
                is None,
        },
{
    proof {
        lemma_first_match_is_lowest(content@, state.cursor as int, matched@);
    }
    match find_first(content, state.cursor, matched, true) {
        None => None,
        Some(at) => {
            let text: Vec<u8> = read_full_text(content, at, matched);
            let savegame_before: bool = is_savegame_between(content, start_index, at);
            let kind: TokenKind = classify_token(
                matched,
                text.as_slice(),
                at,
                state,
                amount,
                savegame_before,
            );
            match kind {
                TokenKind::EndOfRun => None,
                _ => Some(NameToken { text, index: at, kind }),
            }
        },
    }
}

/// What follows the search for name tokens: looks up each match from where
/// the last token ended, reads its full text and decides what it is. The scan
/// ends, without failing, when the run holds `amount` items and another would
/// start, at a bare "SGDs" that is no mod slot, behind the text "Savegame",
/// or when the matches are used up.
pub fn collect_tokens(
    content: &[u8],
    start_index: usize,
    amount: usize,
    texts: &Vec<Vec<u8>>,
) -> (tokens: Vec<NameToken>)
    ensures
        tokens.deep_view() == run_tokens(
            content@,
            start_index as int,
            amount as int,
            RunStateView::initial(start_index as int),
            texts.deep_view(),
        ),
        count_items(tokens.deep_view()) <= amount,
        tokens_in_bounds(tokens.deep_view(), start_index as int, content@),
{
    let ghost all = texts.deep_view();
    let ghost first = RunStateView::initial(start_index as int);
    let mut tokens: Vec<NameToken> = Vec::new();
    let mut state: RunState = RunState::new(start_index);
    let mut i: usize = 0;
    proof {
        assert(all.skip(0) =~= all);
        assert(tokens.deep_view() =~= Seq::<NameTokenView>::empty());
        lemma_run_tokens_bounds(content@, start_index as int, amount as int, first, all);
    }
    while i < texts.len()
        invariant
            i <= texts.len(),
            all == texts.deep_view(),
            state.mods <= i,
            state.items <= i,
            run_tokens(content@, start_index as int, amount as int, first, all)
                == tokens.deep_view() + run_tokens(
                content@,
                start_index as int,
                amount as int,
                state@,
                all.skip(i as int),
            ),
        ensures
            run_tokens(content@, start_index as int, amount as int, first, all)
                == tokens.deep_view(),
        decreases texts.len() - i,
    {
        let ghost rest = all.skip(i as int);
        proof {
            assert(rest[0] == texts@[i as int]@);
            assert(rest.drop_first() =~= all.skip(i + 1));
            lemma_first_match_is_lowest(content@, state.cursor as int, rest[0]);
            assert(content@.len() == content.len());
        }
        match next_token(content, start_index, amount, &state, texts[i].as_slice()) {
            None => {
                break ;
            },
            Some(token) => {
                proof {
                    let before = tokens.deep_view();
                    let tail = run_tokens(
                        content@,
                        start_index as int,
                        amount as int,
                        state@.advance(token@),
                        all.skip(i + 1),
                    );
                    assert(before + (seq![token@] + tail) =~= before.push(token@) + tail);
                }
                state.accept(&token);
                let ghost before = tokens.deep_view();
                tokens.push(token);
                assert(tokens.deep_view() =~= before.push(token@));
            },
        }
        i += 1;
    }
    tokens
}

/// Finds the name tokens that follow a run of `amount` chunks: searches the
/// buffer from `start_index` on for names that end in "SGDs" and hands the
/// matches to `collect_tokens`. Behind the end of the buffer there are none.
pub fn find_amount_of_matches(content: &[u8], start_index: usize, amount: usize) -> (result:
    Result<Vec<NameToken>, SaveError>)
    ensures
        tokens_result_view(result) == amount_of_matches(
            content@,
            start_index as int,
            amount as int,
        ),
        result matches Ok(tokens) ==> count_items(tokens.deep_view()) <= amount
            && tokens_in_bounds(tokens.deep_view(), start_index as int, content@),
{
    if start_index > content.len() {
        let none: Vec<NameToken> = Vec::new();
        assert(none.deep_view() =~= Seq::<NameTokenView>::empty());
        assert(count_items(none.deep_view()) == 0);
        return Ok(none);
    }
    let rest: &[u8] = slice_subrange(content, start_index, content.len());
    assert(rest@ =~= content@.skip(start_index as int));
    match find_pattern_matches(token_pattern_text(), rest) {
        Ok(texts) => Ok(collect_tokens(content, start_index, amount, &texts)),
        Err(error) => Err(error),
    }
}

} // verus!
