//! The unlockable items: collectables, craft plans and tool skins.
//!
//! They follow the last copy of a fixed marker. Each is a name that starts
//! with the prefix of its kind and runs up to the next NUL byte.

use crate::bytes::{copy_range, is_name_byte, strip_controls, without_controls};
use crate::error::SaveError;
use crate::markers::{
    collectable_prefix, craftplan_prefix, inventory_root, inventory_root_marker, tool_skin_prefix,
};
use crate::scanner::{
    all_matches, as_indices, find_all_spec, find_first, first_match,
    get_all_indices_from_sequence, lemma_all_matches_disjoint, lemma_first_match_is_lowest,
    matches_at,
};
use crate::struct_data::{ItemTypeEnum, UnlockableItem, UnlockableItemView};
use crate::text::{string_from_utf8_lossy, utf8_lossy};
use vstd::prelude::*;
use vstd::relations::{sorted_by, total_ordering};
use vstd::seq_lib::*;
use vstd::slice::slice_subrange;
use vstd::string::*;

verus! {

impl ItemTypeEnum {
    /// The prefix of the names of this kind: the name of the kind and an
    /// underscore. The underscore keeps out names that merely hold the name
    /// of the kind.
    pub open spec fn spec_prefix(self) -> Seq<u8> {
        match self {
            ItemTypeEnum::Craftplan => craftplan_prefix(),
            ItemTypeEnum::ToolSkin => tool_skin_prefix(),
            ItemTypeEnum::Collectable => collectable_prefix(),
        }
    }

    /// The prefix of the names of this kind.
    pub fn prefix(&self) -> (prefix: &'static [u8])
        ensures
            prefix@ == self.spec_prefix(),
    {
        match self {
            ItemTypeEnum::Craftplan => "Craftplan_".as_bytes(),
            ItemTypeEnum::ToolSkin => "ToolSkin_".as_bytes(),
            ItemTypeEnum::Collectable => "Collectable_".as_bytes(),
        }
    }
}

/// The order of offsets.
pub open spec fn offset_order() -> spec_fn(int, int) -> bool {
    |left: int, right: int| left <= right
}

/// The bytes of a name: from `index` up to the next NUL byte, or up to the
/// end of the data where no NUL follows.
pub open spec fn name_span(data: Seq<u8>, index: int) -> Seq<u8> {
    if 0 <= index <= data.len() {
        match first_match(data, index, seq![0u8]) {
            Some(end) => data.subrange(index, end),
            None => data.skip(index),
        }
    } else {
        Seq::empty()
    }
}

/// The name that starts at `index`: its bytes without control bytes, decoded.
pub open spec fn full_string(data: Seq<u8>, index: int) -> Seq<char> {
    utf8_lossy(without_controls(name_span(data, index)))
}

/// The unlockable item whose name starts at `at` in the region that starts at
/// `region_start` in the buffer.
pub open spec fn unlockable_at(region: Seq<u8>, region_start: int, at: int) -> UnlockableItemView {
    let clean = without_controls(name_span(region, at));
    UnlockableItemView {
        name: utf8_lossy(clean),
        index: at + region_start,
        size: clean.len() as int,
        sgd_data: region.subrange(at, at + clean.len()),
    }
}

/// The unlockable item describes the buffer: its bytes stand in the buffer at
/// its offset.
pub open spec fn unlockable_lies_in(item: UnlockableItemView, content: Seq<u8>) -> bool {
    &&& 0 <= item.index
    &&& item.size == item.sgd_data.len()
    &&& item.index + item.size <= content.len()
    &&& content.subrange(item.index, item.index + item.size) =~= item.sgd_data
}

/// The offsets in the region at which a name of one of the three kinds
/// starts, in ascending order.
pub open spec fn unlockable_offsets(region: Seq<u8>) -> Seq<int> {
    (find_all_spec(region, 0, collectable_prefix(), true) + find_all_spec(
        region,
        0,
        craftplan_prefix(),
        true,
    ) + find_all_spec(region, 0, tool_skin_prefix(), true)).sort_by(offset_order())
}

/// Where the region of the unlockable items starts: behind the last copy of
/// the marker.
pub open spec fn unlockables_start(content: Seq<u8>) -> Option<int> {
    let roots = find_all_spec(content, 0, inventory_root_marker(), false);
    if roots.len() == 0 {
        None
    } else {
        Some(roots.last())
    }
}

/// The unlockable items at the given offsets of the region.
pub open spec fn unlockables_at(region: Seq<u8>, region_start: int, offsets: Seq<int>) -> Seq<
    UnlockableItemView,
> {
    offsets.map_values(|at: int| unlockable_at(region, region_start, at))
}

/// What `analize_unlockable_items_data` returns.
pub open spec fn unlockables_of(content: Seq<u8>) -> Result<Seq<UnlockableItemView>, SaveError> {
    match unlockables_start(content) {
        None => Err(SaveError::UnlockablesStartMissing),
        Some(start) => {
            let region = content.skip(start);
            let offsets = unlockable_offsets(region);
            if offsets.len() == 0 {
                Err(SaveError::NoUnlockables)
            } else {
                Ok(unlockables_at(region, start, offsets))
            }
        },
    }
}

/// A NUL byte stands in the region at or behind `from` and in front of `to`.
pub open spec fn has_nul_between(region: Seq<u8>, from: int, to: int) -> bool {
    exists|nul: int| from <= nul < to && 0 <= nul < region.len() && #[trigger] region[nul] == 0
}

/// A NUL byte stands between every two neighbouring names of the region:
/// each name ends before the next one starts.
pub open spec fn names_are_terminated(region: Seq<u8>, offsets: Seq<int>) -> bool {
    forall|k: int|
        0 <= k < offsets.len() - 1 ==> has_nul_between(
            region,
            #[trigger] offsets[k],
            offsets[k + 1],
        )
}

/// A result of unlockable items as mathematical values.
pub open spec fn unlockables_result_view(result: Result<Vec<UnlockableItem>, SaveError>)
    -> Result<Seq<UnlockableItemView>, SaveError> {
    match result {
        Ok(items) => Ok(items.deep_view()),
        Err(error) => Err(error),
    }
}

/// Offsets are totally ordered.
pub proof fn lemma_offset_order_is_total()
    ensures
        total_ordering(offset_order()),
{
}

/// A name is at most as long as what is left of the data.
pub proof fn lemma_name_span_len(data: Seq<u8>, index: int)
    requires
        0 <= index <= data.len(),
    ensures
        name_span(data, index).len() <= data.len() - index,
        without_controls(name_span(data, index)).len() <= name_span(data, index).len(),
        first_match(data, index, seq![0u8]) matches Some(end) ==> name_span(data, index).len()
            == end - index && index <= end < data.len() && data[end] == 0,
{
    lemma_first_match_is_lowest(data, index, seq![0u8]);
    name_span(data, index).lemma_filter_len(|byte: u8| is_name_byte(byte));
    match first_match(data, index, seq![0u8]) {
        Some(end) => {
            let window = data.subrange(end, end + 1);
            assert(window[0] == data[end]);
        },
        None => {},
    }
}

/// The unlockable items of a buffer come in ascending order of their
/// offsets, and each lies inside the buffer.
pub proof fn lemma_unlockables_ascend(content: Seq<u8>)
    ensures
        unlockables_of(content) matches Ok(items) ==> {
            &&& items.len() > 0
            &&& forall|i: int, j: int|
                0 <= i < j < items.len() ==> (#[trigger] items[i]).index <= (
                #[trigger] items[j]).index
            &&& forall|k: int|
                0 <= k < items.len() ==> unlockable_lies_in(#[trigger] items[k], content)
        },
{
    match unlockables_start(content) {
        None => {},
        Some(start) => {
            lemma_region_start_in_bounds(content);
            let region = content.skip(start);
            lemma_offsets_sorted_in_bounds(region);
            let offsets = unlockable_offsets(region);
            let items = unlockables_at(region, start, offsets);
            assert forall|i: int, j: int| 0 <= i < j < items.len() implies (#[trigger] items[i]).index
                <= (#[trigger] items[j]).index by {
                assert(offset_order()(offsets[i], offsets[j]));
            }
            assert forall|k: int| 0 <= k < items.len() implies unlockable_lies_in(
                #[trigger] items[k],
                content,
            ) by {
                assert(0 <= offsets[k] < region.len());
                lemma_name_span_len(region, offsets[k]);
                let item = items[k];
                assert(content.subrange(item.index, item.index + item.size) =~= region.subrange(
                    offsets[k],
                    offsets[k] + item.size,
                ));
            }
        },
    }
}

/// The region of the unlockable items starts inside the buffer.
pub proof fn lemma_region_start_in_bounds(content: Seq<u8>)
    ensures
        unlockables_start(content) matches Some(start) ==> 0 <= start <= content.len(),
{
    let found = all_matches(content, 0, inventory_root_marker());
    let roots = find_all_spec(content, 0, inventory_root_marker(), false);
    if roots.len() > 0 {
        lemma_all_matches_disjoint(content, 0, inventory_root_marker());
        assert(matches_at(content, found[found.len() - 1], inventory_root_marker()));
    }
}

/// The offsets of the names are sorted, and each lies inside the region.
pub proof fn lemma_offsets_sorted_in_bounds(region: Seq<u8>)
    ensures
        sorted_by(unlockable_offsets(region), offset_order()),
        forall|k: int|
            0 <= k < unlockable_offsets(region).len() ==> 0 <= #[trigger] unlockable_offsets(
                region,
            )[k] < region.len(),
{
    let first = find_all_spec(region, 0, collectable_prefix(), true);
    let second = find_all_spec(region, 0, craftplan_prefix(), true);
    let third = find_all_spec(region, 0, tool_skin_prefix(), true);
    let all = first + second + third;
    lemma_offset_order_is_total();
    all.lemma_sort_by_ensures(offset_order());
    lemma_all_matches_disjoint(region, 0, collectable_prefix());
    lemma_all_matches_disjoint(region, 0, craftplan_prefix());
    lemma_all_matches_disjoint(region, 0, tool_skin_prefix());
    let sorted = unlockable_offsets(region);
    assert forall|k: int| 0 <= k < sorted.len() implies 0 <= #[trigger] sorted[k]
        < region.len() by {
        let offset = sorted[k];
        assert(sorted.contains(offset));
        if !all.contains(offset) {
            assert(!sorted.contains(offset));
        }
        let place = choose|place: int| 0 <= place < all.len() && all[place] == offset;
        if place < first.len() {
            assert(all[place] == all_matches(region, 0, collectable_prefix())[place]);
        } else if place < first.len() + second.len() {
            assert(all[place] == all_matches(region, 0, craftplan_prefix())[place - first.len()]);
        } else {
            assert(all[place] == all_matches(region, 0, tool_skin_prefix())[place - first.len()
                - second.len()]);
        }
    }
}

/// Where every name of the region ends before the next one starts, no two
/// unlockable items overlap: each ends at or before the start of every item
/// behind it.
pub proof fn lemma_unlockables_do_not_overlap(content: Seq<u8>)
    requires
        unlockables_start(content) matches Some(start) && names_are_terminated(
            content.skip(start),
            unlockable_offsets(content.skip(start)),
        ),
    ensures
        unlockables_of(content) matches Ok(items) ==> forall|i: int, j: int|
            0 <= i < j < items.len() ==> (#[trigger] items[i]).index + items[i].size <= (
            #[trigger] items[j]).index,
{
    let start = unlockables_start(content)->0;
    let region = content.skip(start);
    let offsets = unlockable_offsets(region);
    let items = unlockables_at(region, start, offsets);
    lemma_offsets_sorted_in_bounds(region);
    if offsets.len() > 0 {
        assert forall|i: int, j: int| 0 <= i < j < items.len() implies (#[trigger] items[i]).index
            + items[i].size <= (#[trigger] items[j]).index by {
            assert(has_nul_between(region, offsets[i], offsets[i + 1]));
            let nul = choose|nul: int|
                offsets[i] <= nul < offsets[i + 1] && 0 <= nul < region.len() && #[trigger] region[nul]
                    == 0;
            lemma_name_span_len(region, offsets[i]);
            lemma_first_match_is_lowest(region, offsets[i], seq![0u8]);
            assert(matches_at(region, nul, seq![0u8])) by {
                assert(region.subrange(nul, nul + 1) =~= seq![0u8]);
            }
            if i + 1 < j {
                assert(offset_order()(offsets[i + 1], offsets[j]));
            }
        }
    }
}

/// Reads the name that starts at `index`: the bytes up to the next NUL byte,
/// without control bytes, decoded.
pub fn get_full_string(data: &[u8], index: usize) -> (name: String)
    ensures
        name@ == full_string(data@, index as int),
{
    let clean: Vec<u8> = read_name(data, index);
    string_from_utf8_lossy(clean.as_slice())
}

/// Reads the bytes of the name that starts at `index`, without control bytes.
pub fn read_name(data: &[u8], index: usize) -> (clean: Vec<u8>)
    ensures
        clean@ == without_controls(name_span(data@, index as int)),
        index <= data@.len() ==> index + clean@.len() <= data@.len(),
{
    if index > data.len() {
        return strip_controls(slice_subrange(data, 0, 0));
    }
    proof {
        lemma_name_span_len(data@, index as int);
    }
    let nul: Vec<u8> = vec![0u8];
    assert(nul@ =~= seq![0u8]);
    let end: usize = match find_first(data, index, nul.as_slice(), true) {
        Some(end) => end,
        None => data.len(),
    };
    assert(data@.subrange(index as int, data@.len() as int) =~= data@.skip(index as int));
    strip_controls(slice_subrange(data, index, end))
}

/// Sorts offsets in ascending order.
pub fn sort_offsets(offsets: &Vec<usize>) -> (sorted: Vec<usize>)
    ensures
        as_indices(sorted@) == as_indices(offsets@).sort_by(offset_order()),
{
    let ghost input = as_indices(offsets@);
    let mut sorted: Vec<usize> = Vec::new();
    let mut i: usize = 0;
    proof {
        assert(input.take(0) =~= Seq::<int>::empty());
        assert(as_indices(sorted@) =~= Seq::<int>::empty());
    }
    while i < offsets.len()
        invariant
            i <= offsets.len(),
            input == as_indices(offsets@),
            sorted@.len() == i,
            sorted_by(as_indices(sorted@), offset_order()),
            as_indices(sorted@).to_multiset() == input.take(i as int).to_multiset(),
        decreases offsets.len() - i,
    {
        let offset: usize = offsets[i];
        let mut place: usize = 0;
        while place < sorted.len() && sorted[place] <= offset
            invariant
                place <= sorted@.len(),
                forall|k: int| 0 <= k < place ==> sorted@[k] <= offset,
            decreases sorted.len() - place,
        {
            place += 1;
        }
        let ghost before = as_indices(sorted@);
        sorted.insert(place, offset);
        proof {
            let after = as_indices(sorted@);
            assert(after =~= before.insert(place as int, offset as int));
            to_multiset_insert(before, place as int, offset as int);
            assert(input.take(i + 1) =~= input.take(i as int).push(offset as int));
            to_multiset_build(input.take(i as int), offset as int);
            assert forall|a: int, b: int| 0 <= a < b < after.len() implies offset_order()(
                after[a],
                after[b],
            ) by {
                if a < place && b > place {
                    assert(offset_order()(before[a], before[b - 1]));
                } else if a < place && b < place {
                    assert(offset_order()(before[a], before[b]));
                } else if a > place {
                    assert(offset_order()(before[a - 1], before[b - 1]));
                } else if a == place {
                    assert(after[b] == before[b - 1]);
                    assert(offset_order()(before[place as int], before[b - 1]) || b - 1
                        == place);
                }
            }
        }
        i += 1;
    }
    proof {
        assert(input.take(offsets.len() as int) =~= input);
        lemma_offset_order_is_total();
        input.lemma_sort_by_ensures(offset_order());
        lemma_sorted_unique(as_indices(sorted@), input.sort_by(offset_order()), offset_order());
    }
    sorted
}

/// Finds the offsets in the region at which a name of one of the three kinds
/// starts, in ascending order.
pub fn find_unlockable_offsets(region: &[u8]) -> (offsets: Vec<usize>)
    ensures
        as_indices(offsets@) == unlockable_offsets(region@),
{
    let mut all: Vec<usize> = get_all_indices_from_sequence(
        region,
        0,
        ItemTypeEnum::Collectable.prefix(),
        true,
    );
    let mut craftplans: Vec<usize> = get_all_indices_from_sequence(
        region,
        0,
        ItemTypeEnum::Craftplan.prefix(),
        true,
    );
    let mut tool_skins: Vec<usize> = get_all_indices_from_sequence(
        region,
        0,
        ItemTypeEnum::ToolSkin.prefix(),
        true,
    );
    let ghost first = as_indices(all@);
    let ghost second = as_indices(craftplans@);
    let ghost third = as_indices(tool_skins@);
    all.append(&mut craftplans);
    all.append(&mut tool_skins);
    assert(as_indices(all@) =~= first + second + third);
    sort_offsets(&all)
}

/// Finds the unlockable items of a buffer, in the order of their offsets.
pub fn analize_unlockable_items_data(content: &[u8]) -> (result: Result<
    Vec<UnlockableItem>,
    SaveError,
>)
    ensures
        unlockables_result_view(result) == unlockables_of(content@),
        result matches Ok(items) ==> {
            &&& items@.len() > 0
            &&& forall|i: int, j: int|
                0 <= i < j < items@.len() ==> (#[trigger] items@[i]).index <= (
                #[trigger] items@[j]).index
            &&& forall|k: int|
                0 <= k < items@.len() ==> unlockable_lies_in((#[trigger] items@[k])@, content@)
        },
{
    let root: Vec<u8> = inventory_root();
    let indices: Vec<usize> = get_all_indices_from_sequence(content, 0, root.as_slice(), false);
    if indices.len() == 0 {
        return Err(SaveError::UnlockablesStartMissing);
    }
    let start_index: usize = indices[indices.len() - 1];
    proof {
        lemma_region_start_in_bounds(content@);
        lemma_unlockables_ascend(content@);
        assert(as_indices(indices@).last() == start_index);
        assert(content@.len() == content.len());
    }
    let inventory_data: &[u8] = slice_subrange(content, start_index, content.len());
    assert(inventory_data@ =~= content@.skip(start_index as int));
    let offsets: Vec<usize> = find_unlockable_offsets(inventory_data);
    if offsets.len() == 0 {
        return Err(SaveError::NoUnlockables);
    }
    let ghost wanted = unlockables_at(
        inventory_data@,
        start_index as int,
        unlockable_offsets(inventory_data@),
    );
    proof {
        lemma_offsets_sorted_in_bounds(inventory_data@);
    }
    let mut items: Vec<UnlockableItem> = Vec::new();
    let mut i: usize = 0;
    assert(items.deep_view() =~= wanted.take(0));
    while i < offsets.len()
        invariant
            i <= offsets.len(),
            start_index + inventory_data@.len() == content@.len(),
            content@.len() == content.len(),
            as_indices(offsets@) == unlockable_offsets(inventory_data@),
            wanted == unlockables_at(
                inventory_data@,
                start_index as int,
                unlockable_offsets(inventory_data@),
            ),
            forall|k: int|
                0 <= k < offsets@.len() ==> 0 <= #[trigger] unlockable_offsets(inventory_data@)[k]
                    < inventory_data@.len(),
            items.deep_view() == wanted.take(i as int),
        decreases offsets.len() - i,
    {
        let at: usize = offsets[i];
        assert(as_indices(offsets@)[i as int] == at);
        assert(unlockable_offsets(inventory_data@)[i as int] == at);
        let clean: Vec<u8> = read_name(inventory_data, at);
        let size: usize = clean.len();
        let sgd: Vec<u8> = copy_range(inventory_data, at, at + size);
        let name: String = string_from_utf8_lossy(clean.as_slice());
        let ghost before = items.deep_view();
        let item: UnlockableItem = UnlockableItem::new(name, at + start_index, size, sgd);
        items.push(item);
        assert(items.deep_view() =~= before.push(item@));
        i += 1;
        assert(wanted.take(i as int) =~= before.push(wanted[i - 1]));
    }
    assert(wanted.take(offsets.len() as int) =~= wanted);
    proof {
        assert forall|k: int| 0 <= k < items@.len() implies (#[trigger] items@[k])@
            == items.deep_view()[k] by {}
    }
    Ok(items)
}

} // verus!
