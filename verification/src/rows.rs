//! Names the tab that a row of inventory items belongs to.
//!
//! The format does not label items. Each item votes for the tab of the first
//! list of known names that holds a part of its name, and the row goes to the
//! tab with the most votes.

use crate::bytes::{contains_bytes, lowered, occurs_in, same_bytes, to_ascii_lower};
use crate::struct_data::{
    IdData, IdDataView, InventoryItem, InventoryItemRow, InventoryItemRowView, InventoryItemView,
};
use vstd::prelude::*;
use vstd::string::*;
use vstd::utf8::encode_utf8;

verus! {

/// The tabs of the inventory.
#[derive(Clone, Copy, Debug, PartialEq, Eq, Structural)]
pub enum Tab {
    Tokens,
    Equipment,
    Craftresources,
    Consumables,
    Accessories,
    Quest,
    Ammunition,
    Weapons,
    Items,
}

/// The number of tabs.
pub const TAB_COUNT: usize = 9;

impl Tab {
    /// The place of the tab among the tabs.
    pub open spec fn spec_ordinal(self) -> int {
        match self {
            Tab::Tokens => 0,
            Tab::Equipment => 1,
            Tab::Craftresources => 2,
            Tab::Consumables => 3,
            Tab::Accessories => 4,
            Tab::Quest => 5,
            Tab::Ammunition => 6,
            Tab::Weapons => 7,
            Tab::Items => 8,
        }
    }

    /// The tab at a place; the general tab "Items" at every other place.
    pub open spec fn spec_at(ordinal: int) -> Tab {
        if ordinal == 0 {
            Tab::Tokens
        } else if ordinal == 1 {
            Tab::Equipment
        } else if ordinal == 2 {
            Tab::Craftresources
        } else if ordinal == 3 {
            Tab::Consumables
        } else if ordinal == 4 {
            Tab::Accessories
        } else if ordinal == 5 {
            Tab::Quest
        } else if ordinal == 6 {
            Tab::Ammunition
        } else if ordinal == 7 {
            Tab::Weapons
        } else {
            Tab::Items
        }
    }

    /// The name that the editor shows for the tab.
    pub open spec fn spec_name(self) -> Seq<char> {
        match self {
            Tab::Tokens => "Tokens/Tickets"@,
            Tab::Equipment => "Equipment"@,
            Tab::Craftresources => "Outfits/Craftresources"@,
            Tab::Consumables => "Consumables"@,
            Tab::Accessories => "Accessories"@,
            Tab::Quest => "Quest Items"@,
            Tab::Ammunition => "Ammunition"@,
            Tab::Weapons => "Weapons"@,
            Tab::Items => "Items"@,
        }
    }

    /// The place of the tab among the tabs.
    pub fn ordinal(&self) -> (ordinal: usize)
        ensures
            ordinal == self.spec_ordinal(),
            ordinal < TAB_COUNT,
    {
        match self {
            Tab::Tokens => 0,
            Tab::Equipment => 1,
            Tab::Craftresources => 2,
            Tab::Consumables => 3,
            Tab::Accessories => 4,
            Tab::Quest => 5,
            Tab::Ammunition => 6,
            Tab::Weapons => 7,
            Tab::Items => 8,
        }
    }

    /// The tab at a place.
    pub fn at(ordinal: usize) -> (tab: Tab)
        ensures
            tab == Tab::spec_at(ordinal as int),
    {
        if ordinal == 0 {
            Tab::Tokens
        } else if ordinal == 1 {
            Tab::Equipment
        } else if ordinal == 2 {
            Tab::Craftresources
        } else if ordinal == 3 {
            Tab::Consumables
        } else if ordinal == 4 {
            Tab::Accessories
        } else if ordinal == 5 {
            Tab::Quest
        } else if ordinal == 6 {
            Tab::Ammunition
        } else if ordinal == 7 {
            Tab::Weapons
        } else {
            Tab::Items
        }
    }

    /// The name that the editor shows for the tab.
    pub fn name(&self) -> (name: String)
        ensures
            name@ == self.spec_name(),
    {
        match self {
            Tab::Tokens => "Tokens/Tickets".to_owned(),
            Tab::Equipment => "Equipment".to_owned(),
            Tab::Craftresources => "Outfits/Craftresources".to_owned(),
            Tab::Consumables => "Consumables".to_owned(),
            Tab::Accessories => "Accessories".to_owned(),
            Tab::Quest => "Quest Items".to_owned(),
            Tab::Ammunition => "Ammunition".to_owned(),
            Tab::Weapons => "Weapons".to_owned(),
            Tab::Items => "Items".to_owned(),
        }
    }
}

/// The tab that the names of a list belong to, by the stem of the file that
/// the list came from, in lower case. A stem that is not known belongs to the
/// general tab.
pub open spec fn tab_of_stem(stem: Seq<u8>) -> Tab {
    if stem == "ammo".spec_bytes() {
        Tab::Ammunition
    } else if stem == "craftcomponent".spec_bytes() || stem == "craftpart".spec_bytes() || stem
        == "lootpack".spec_bytes() || stem == "outfitpart".spec_bytes() || stem
        == "valuable".spec_bytes() {
        Tab::Craftresources
    } else if stem == "equipment".spec_bytes() || stem == "lockpick".spec_bytes() {
        Tab::Equipment
    } else if stem == "firearm".spec_bytes() || stem == "melee".spec_bytes() {
        Tab::Weapons
    } else if stem == "flashlight".spec_bytes() || stem == "inventoryitem".spec_bytes() || stem
        == "throwable".spec_bytes() || stem == "throwableliquid".spec_bytes() {
        Tab::Accessories
    } else if stem == "medkit".spec_bytes() || stem == "powerup".spec_bytes() || stem
        == "syringeantizin".spec_bytes() {
        Tab::Consumables
    } else if stem == "other".spec_bytes() {
        Tab::Quest
    } else if stem == "token".spec_bytes() {
        Tab::Tokens
    } else {
        Tab::Items
    }
}

/// The tab of a list of names, whatever the case of the letters of its file
/// stem.
pub open spec fn tab_of_list(list: IdDataView) -> Tab {
    tab_of_stem(lowered(encode_utf8(list.filename)))
}

/// One of the names of the list is a part of the item's name.
pub open spec fn list_knows(list: Seq<Seq<char>>, name: Seq<char>) -> bool {
    exists|k: int|
        0 <= k < list.len() && occurs_in(encode_utf8(#[trigger] list[k]), encode_utf8(name))
}

/// The tab that an item votes for: that of the first list that knows it. An
/// item that no list knows does not vote.
pub open spec fn vote(name: Seq<char>, lists: Seq<IdDataView>) -> Option<Tab>
    decreases lists.len(),
{
    if lists.len() == 0 {
        None
    } else if list_knows(lists[0].ids, name) {
        Some(tab_of_list(lists[0]))
    } else {
        vote(name, lists.drop_first())
    }
}

/// The number of items that vote for a tab.
pub open spec fn votes_for(items: Seq<InventoryItemView>, lists: Seq<IdDataView>, tab: Tab) -> int
    decreases items.len(),
{
    if items.len() == 0 {
        0
    } else {
        votes_for(items.drop_last(), lists, tab) + if vote(items.last().name, lists) == Some(
            tab,
        ) {
            1int
        } else {
            0int
        }
    }
}

/// The tab at `ordinal` has votes, and more of them than any other tab.
pub open spec fn wins(counts: Seq<int>, ordinal: int) -> bool {
    &&& 0 <= ordinal < counts.len()
    &&& counts[ordinal] > 0
    &&& forall|other: int|
        0 <= other < counts.len() && other != ordinal ==> counts[other] < counts[ordinal]
}

/// The tab with the most votes; the general tab where two tabs tie for the
/// lead or nobody voted.
pub open spec fn winner(counts: Seq<int>) -> Tab {
    if wins(counts, 0) {
        Tab::Tokens
    } else if wins(counts, 1) {
        Tab::Equipment
    } else if wins(counts, 2) {
        Tab::Craftresources
    } else if wins(counts, 3) {
        Tab::Consumables
    } else if wins(counts, 4) {
        Tab::Accessories
    } else if wins(counts, 5) {
        Tab::Quest
    } else if wins(counts, 6) {
        Tab::Ammunition
    } else if wins(counts, 7) {
        Tab::Weapons
    } else {
        Tab::Items
    }
}

/// The votes of a list of items, tab by tab.
pub open spec fn tally(items: Seq<InventoryItemView>, lists: Seq<IdDataView>) -> Seq<int> {
    Seq::new(TAB_COUNT as nat, |ordinal: int| votes_for(items, lists, Tab::spec_at(ordinal)))
}

/// The tab of a row.
pub open spec fn row_tab(items: Seq<InventoryItemView>, lists: Seq<IdDataView>) -> Tab {
    winner(tally(items, lists))
}

/// What `create_item_row` returns.
pub open spec fn item_row(items: Seq<InventoryItemView>, lists: Seq<IdDataView>)
    -> InventoryItemRowView {
    InventoryItemRowView { name: row_tab(items, lists).spec_name(), inventory_items: items }
}

/// Every vote goes to one tab: the votes of all tabs together are at most as
/// many as the items.
pub proof fn lemma_votes_bounded(items: Seq<InventoryItemView>, lists: Seq<IdDataView>, tab: Tab)
    ensures
        0 <= votes_for(items, lists, tab) <= items.len(),
    decreases items.len(),
{
    if items.len() > 0 {
        lemma_votes_bounded(items.drop_last(), lists, tab);
    }
}

/// A row without items, or with items that no list knows, goes to the
/// general tab.
pub proof fn lemma_no_votes_no_winner(items: Seq<InventoryItemView>, lists: Seq<IdDataView>)
    requires
        forall|k: int| 0 <= k < items.len() ==> vote(#[trigger] items[k].name, lists) is None,
    ensures
        row_tab(items, lists) == Tab::Items,
{
    assert forall|ordinal: int| 0 <= ordinal < TAB_COUNT implies tally(items, lists)[ordinal]
        == 0 by {
        lemma_silent_items_cast_no_vote(items, lists, Tab::spec_at(ordinal));
    }
}

/// Where two tabs share the most votes, the row goes to the general tab.
pub proof fn lemma_tie_has_no_winner(counts: Seq<int>, first: int, second: int)
    requires
        0 <= first < counts.len(),
        0 <= second < counts.len(),
        first != second,
        counts[first] == counts[second],
        forall|other: int| 0 <= other < counts.len() ==> counts[other] <= counts[first],
    ensures
        winner(counts) == Tab::Items,
{
    assert forall|ordinal: int| !wins(counts, ordinal) by {
        if wins(counts, ordinal) {
            if ordinal == first {
                assert(counts[second] < counts[ordinal]);
            } else {
                assert(counts[first] < counts[ordinal]);
            }
        }
    }
}

/// Items that do not vote leave every count at zero.
pub proof fn lemma_silent_items_cast_no_vote(
    items: Seq<InventoryItemView>,
    lists: Seq<IdDataView>,
    tab: Tab,
)
    requires
        forall|k: int| 0 <= k < items.len() ==> vote(#[trigger] items[k].name, lists) is None,
    ensures
        votes_for(items, lists, tab) == 0,
    decreases items.len(),
{
    if items.len() > 0 {
        let front = items.drop_last();
        assert forall|k: int| 0 <= k < front.len() implies vote(
            #[trigger] front[k].name,
            lists,
        ) is None by {
            assert(front[k] == items[k]);
        }
        lemma_silent_items_cast_no_vote(front, lists, tab);
        assert(vote(items[items.len() - 1].name, lists) is None);
    }
}

/// Tells the tab of a file stem.
pub fn tab_of_file(filename: &str) -> (tab: Tab)
    ensures
        tab == tab_of_stem(lowered(encode_utf8(filename@))),
{
    let lower: Vec<u8> = to_ascii_lower(filename.as_bytes());
    let stem: &[u8] = lower.as_slice();
    if same_bytes(stem, "ammo".as_bytes()) {
        Tab::Ammunition
    } else if same_bytes(stem, "craftcomponent".as_bytes()) || same_bytes(
        stem,
        "craftpart".as_bytes(),
    ) || same_bytes(stem, "lootpack".as_bytes()) || same_bytes(stem, "outfitpart".as_bytes())
        || same_bytes(stem, "valuable".as_bytes()) {
        Tab::Craftresources
    } else if same_bytes(stem, "equipment".as_bytes()) || same_bytes(
        stem,
        "lockpick".as_bytes(),
    ) {
        Tab::Equipment
    } else if same_bytes(stem, "firearm".as_bytes()) || same_bytes(stem, "melee".as_bytes()) {
        Tab::Weapons
    } else if same_bytes(stem, "flashlight".as_bytes()) || same_bytes(
        stem,
        "inventoryitem".as_bytes(),
    ) || same_bytes(stem, "throwable".as_bytes()) || same_bytes(
        stem,
        "throwableliquid".as_bytes(),
    ) {
        Tab::Accessories
    } else if same_bytes(stem, "medkit".as_bytes()) || same_bytes(stem, "powerup".as_bytes())
        || same_bytes(stem, "syringeantizin".as_bytes()) {
        Tab::Consumables
    } else if same_bytes(stem, "other".as_bytes()) {
        Tab::Quest
    } else if same_bytes(stem, "token".as_bytes()) {
        Tab::Tokens
    } else {
        Tab::Items
    }
}

/// Tells whether one of the names of a list is a part of `name`.
pub fn is_known(list: &Vec<String>, name: &str) -> (known: bool)
    ensures
        known == list_knows(list.deep_view(), name@),
{
    let mut k: usize = 0;
    while k < list.len()
        invariant
            k <= list.len(),
            forall|j: int|
                0 <= j < k ==> !occurs_in(
                    encode_utf8(#[trigger] list.deep_view()[j]),
                    encode_utf8(name@),
                ),
        decreases list.len() - k,
    {
        assert(list.deep_view()[k as int] == list@[k as int]@);
        if contains_bytes(name.as_bytes(), list[k].as_str().as_bytes()) {
            return true;
        }
        k += 1;
    }
    false
}

/// Finds the tab that an item of the given name votes for.
pub fn vote_of(name: &str, ids: &Vec<IdData>) -> (tab: Option<Tab>)
    ensures
        tab == vote(name@, ids.deep_view()),
{
    let ghost lists = ids.deep_view();
    let mut s: usize = 0;
    assert(lists.skip(0) =~= lists);
    while s < ids.len()
        invariant
            s <= ids.len(),
            lists == ids.deep_view(),
            vote(name@, lists) == vote(name@, lists.skip(s as int)),
        decreases ids.len() - s,
    {
        proof {
            let rest = lists.skip(s as int);
            assert(rest[0] == ids@[s as int]@);
            assert(rest.drop_first() =~= lists.skip(s + 1));
        }
        if is_known(&ids[s].ids, name) {
            return Some(tab_of_file(ids[s].filename.as_str()));
        }
        s += 1;
    }
    None
}

/// Counts the votes of the items, tab by tab.
pub fn count_votes(items: &Vec<InventoryItem>, ids: &Vec<IdData>) -> (counts: Vec<usize>)
    ensures
        counts@.map_values(|count: usize| count as int) == tally(
            items.deep_view(),
            ids.deep_view(),
        ),
{
    let ghost all = items.deep_view();
    let ghost lists = ids.deep_view();
    let mut counts: Vec<usize> = vec![0usize, 0usize, 0usize, 0usize, 0usize, 0usize, 0usize,
        0usize, 0usize];
    let mut i: usize = 0;
    assert(all.take(0) =~= Seq::<InventoryItemView>::empty());
    while i < items.len()
        invariant
            i <= items.len(),
            all == items.deep_view(),
            lists == ids.deep_view(),
            counts@.len() == TAB_COUNT,
            forall|ordinal: int|
                0 <= ordinal < TAB_COUNT ==> #[trigger] counts@[ordinal] == votes_for(
                    all.take(i as int),
                    lists,
                    Tab::spec_at(ordinal),
                ),
        decreases items.len() - i,
    {
        proof {
            let done = all.take(i as int);
            let next = all.take(i + 1);
            assert(next.drop_last() =~= done);
            assert(next.last() == items@[i as int]@);
            assert forall|ordinal: int| 0 <= ordinal < TAB_COUNT implies votes_for(
                next,
                lists,
                Tab::spec_at(ordinal),
            ) <= i + 1 by {
                lemma_votes_bounded(next, lists, Tab::spec_at(ordinal));
            }
        }
        match vote_of(items[i].name.as_str(), ids) {
            Some(tab) => {
                let ordinal: usize = tab.ordinal();
                let count: usize = counts[ordinal];
                assert(Tab::spec_at(ordinal as int) == tab);
                counts.set(ordinal, count + 1);
            },
            None => {},
        }
        i += 1;
    }
    proof {
        assert(all.take(items.len() as int) =~= all);
        assert(counts@.map_values(|count: usize| count as int) =~= tally(all, lists));
    }
    counts
}

/// Picks the tab with the most votes.
pub fn pick_winner(counts: &Vec<usize>) -> (tab: Tab)
    requires
        counts@.len() == TAB_COUNT,
    ensures
        tab == winner(counts@.map_values(|count: usize| count as int)),
{
    let ghost votes = counts@.map_values(|count: usize| count as int);
    let mut best: usize = 0;
    let mut lead_is_shared: bool = false;
    let mut ordinal: usize = 1;
    while ordinal < TAB_COUNT
        invariant
            1 <= ordinal <= TAB_COUNT,
            counts@.len() == TAB_COUNT,
            votes == counts@.map_values(|count: usize| count as int),
            best < ordinal,
            forall|other: int| 0 <= other < ordinal ==> votes[other] <= votes[best as int],
            lead_is_shared <==> exists|other: int|
                0 <= other < ordinal && other != best && votes[other] == votes[best as int],
        decreases TAB_COUNT - ordinal,
    {
        if counts[ordinal] > counts[best] {
            best = ordinal;
            lead_is_shared = false;
        } else if counts[ordinal] == counts[best] {
            lead_is_shared = true;
            assert(votes[ordinal as int] == votes[best as int]);
        }
        ordinal += 1;
    }
    if counts[best] > 0 && !lead_is_shared {
        assert(wins(votes, best as int));
        assert forall|other: int| other != best implies !wins(votes, other) by {
            if wins(votes, other) {
                assert(votes[best as int] < votes[other]);
            }
        }
        Tab::at(best)
    } else {
        assert forall|other: int| !wins(votes, other) by {
            if wins(votes, other) {
                if other != best {
                    assert(votes[best as int] < votes[other]);
                } else {
                    let shared = choose|shared: int|
                        0 <= shared < TAB_COUNT && shared != best && votes[shared]
                            == votes[best as int];
                    assert(votes[shared] < votes[other]);
                }
            }
        }
        Tab::Items
    }
}

/// Makes a row of the items and names it after the tab that most of them
/// vote for.
pub fn create_item_row(items: Vec<InventoryItem>, ids: &Vec<IdData>) -> (row: InventoryItemRow)
    ensures
        row@ == item_row(items.deep_view(), ids.deep_view()),
{
    let counts: Vec<usize> = count_votes(&items, ids);
    let tab: Tab = pick_winner(&counts);
    InventoryItemRow::new(tab.name(), items)
}

} // verus!
