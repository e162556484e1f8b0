//! Sequence scanner: finds a literal byte run inside a buffer.
//!
//! Everything above this module locates its records through these functions.

use vstd::prelude::*;

verus! {

/// `pattern` occurs in `buffer` as a contiguous run that starts at `at` and
/// lies wholly inside the buffer.
pub open spec fn matches_at(buffer: Seq<u8>, at: int, pattern: Seq<u8>) -> bool {
    &&& 0 <= at < buffer.len()
    &&& at + pattern.len() <= buffer.len()
    &&& buffer.subrange(at, at + pattern.len()) =~= pattern
}

/// The lowest offset at or after `start` at which `pattern` occurs.
pub open spec fn first_match(buffer: Seq<u8>, start: int, pattern: Seq<u8>) -> Option<int>
    decreases buffer.len() - start,
{
    if start < 0 || start >= buffer.len() {
        None
    } else if matches_at(buffer, start, pattern) {
        Some(start)
    } else {
        first_match(buffer, start + 1, pattern)
    }
}

/// The offset reported for a match at `at`: its start, or the position just
/// behind its last byte.
pub open spec fn anchor_offset(at: int, pattern_len: nat, get_start: bool) -> int {
    if get_start {
        at
    } else {
        at + pattern_len
    }
}

/// What `find_first` reports.
pub open spec fn find_first_spec(
    buffer: Seq<u8>,
    start: int,
    pattern: Seq<u8>,
    get_start: bool,
) -> Option<int> {
    match first_match(buffer, start, pattern) {
        Some(at) => Some(anchor_offset(at, pattern.len(), get_start)),
        None => None,
    }
}

/// How far the scan moves on after a match, so that matches never overlap.
pub open spec fn match_step(pattern: Seq<u8>) -> int {
    if pattern.len() == 0 {
        1
    } else {
        pattern.len() as int
    }
}

/// The start offsets of the matches of `pattern` at or after `start`, taken
/// greedily from the left so that no two of them overlap.
pub open spec fn all_matches(buffer: Seq<u8>, start: int, pattern: Seq<u8>) -> Seq<int>
    decreases buffer.len() - start,
{
    if start < 0 || start >= buffer.len() {
        Seq::empty()
    } else if matches_at(buffer, start, pattern) {
        seq![start] + all_matches(buffer, start + match_step(pattern), pattern)
    } else {
        all_matches(buffer, start + 1, pattern)
    }
}

/// What `get_all_indices_from_sequence` reports.
pub open spec fn find_all_spec(
    buffer: Seq<u8>,
    start: int,
    pattern: Seq<u8>,
    get_start: bool,
) -> Seq<int> {
    all_matches(buffer, start, pattern).map_values(
        |at: int| anchor_offset(at, pattern.len(), get_start),
    )
}

/// An optional machine offset as an optional mathematical one.
pub open spec fn as_index(found: Option<usize>) -> Option<int> {
    match found {
        Some(at) => Some(at as int),
        None => None,
    }
}

/// Machine offsets as mathematical ones.
pub open spec fn as_indices(found: Seq<usize>) -> Seq<int> {
    found.map_values(|at: usize| at as int)
}

/// The offset, or the "not found" sentinel 0.
pub open spec fn index_or_zero(found: Option<int>) -> int {
    match found {
        Some(at) => at,
        None => 0,
    }
}

/// `first_match` yields the lowest match at or after `start`, and nothing
/// exactly when there is no such match.
pub proof fn lemma_first_match_is_lowest(buffer: Seq<u8>, start: int, pattern: Seq<u8>)
    requires
        0 <= start,
    ensures
        first_match(buffer, start, pattern) is None <==> forall|at: int|
            start <= at ==> !matches_at(buffer, at, pattern),
        first_match(buffer, start, pattern) matches Some(found) ==> {
            &&& start <= found
            &&& matches_at(buffer, found, pattern)
            &&& forall|at: int| start <= at < found ==> !matches_at(buffer, at, pattern)
        },
    decreases buffer.len() - start,
{
    if start >= buffer.len() {
    } else if matches_at(buffer, start, pattern) {
    } else {
        lemma_first_match_is_lowest(buffer, start + 1, pattern);
        assert forall|at: int| start <= at && first_match(buffer, start, pattern)
            is None implies !matches_at(buffer, at, pattern) by {
            if at > start {
                assert(start + 1 <= at);
            }
        }
    }
}

/// Every offset that `all_matches` lists is a match at or after `start`, and
/// consecutive ones lie at least one pattern length apart: the list ascends
/// strictly and its matches do not overlap.
pub proof fn lemma_all_matches_disjoint(buffer: Seq<u8>, start: int, pattern: Seq<u8>)
    requires
        0 <= start,
    ensures
        forall|k: int|
            0 <= k < all_matches(buffer, start, pattern).len() ==> {
                &&& start <= #[trigger] all_matches(buffer, start, pattern)[k]
                &&& matches_at(buffer, all_matches(buffer, start, pattern)[k], pattern)
            },
        forall|k: int, l: int|
            0 <= k < l < all_matches(buffer, start, pattern).len() ==> #[trigger] all_matches(
                buffer,
                start,
                pattern,
            )[k] + match_step(pattern) <= #[trigger] all_matches(buffer, start, pattern)[l],
    decreases buffer.len() - start,
{
    let found = all_matches(buffer, start, pattern);
    if start >= buffer.len() {
        assert(found.len() == 0);
    } else if matches_at(buffer, start, pattern) {
        let rest = all_matches(buffer, start + match_step(pattern), pattern);
        lemma_all_matches_disjoint(buffer, start + match_step(pattern), pattern);
        assert(found =~= seq![start] + rest);
        assert forall|k: int| 0 <= k < found.len() implies start <= #[trigger] found[k]
            && matches_at(buffer, found[k], pattern) by {
            if k > 0 {
                assert(found[k] == rest[k - 1]);
            }
        }
        assert forall|k: int, l: int| 0 <= k < l < found.len() implies #[trigger] found[k]
            + match_step(pattern) <= #[trigger] found[l] by {
            assert(found[l] == rest[l - 1]);
            if k > 0 {
                assert(found[k] == rest[k - 1]);
            } else {
                assert(found[k] == start);
            }
        }
    } else {
        lemma_all_matches_disjoint(buffer, start + 1, pattern);
        assert(found == all_matches(buffer, start + 1, pattern));
    }
}

/// No match is left out: a match at or after `start` is either listed by
/// `all_matches` or begins inside a listed match.
pub proof fn lemma_all_matches_complete(
    buffer: Seq<u8>,
    start: int,
    pattern: Seq<u8>,
    at: int,
)
    requires
        0 <= start <= at,
        matches_at(buffer, at, pattern),
    ensures
        exists|k: int|
            0 <= k < all_matches(buffer, start, pattern).len() && #[trigger] all_matches(
                buffer,
                start,
                pattern,
            )[k] <= at < all_matches(buffer, start, pattern)[k] + match_step(pattern),
    decreases buffer.len() - start,
{
    let found = all_matches(buffer, start, pattern);
    if matches_at(buffer, start, pattern) {
        let rest = all_matches(buffer, start + match_step(pattern), pattern);
        assert(found =~= seq![start] + rest);
        if at < start + match_step(pattern) {
            assert(found[0] <= at < found[0] + match_step(pattern));
        } else {
            lemma_all_matches_complete(buffer, start + match_step(pattern), pattern, at);
            let k = choose|k: int|
                0 <= k < rest.len() && #[trigger] rest[k] <= at < rest[k] + match_step(pattern);
            assert(found[k + 1] == rest[k]);
        }
    } else {
        lemma_all_matches_complete(buffer, start + 1, pattern, at);
    }
}

/// Tells whether `sequence` occurs in `content` at offset `at`. Reads no byte
/// outside the buffer.
pub fn is_sequence_at(content: &[u8], at: usize, sequence: &[u8]) -> (found: bool)
    ensures
        found == matches_at(content@, at as int, sequence@),
{
    if at >= content.len() || sequence.len() > content.len() - at {
        return false;
    }
    let mut i: usize = 0;
    while i < sequence.len()
        invariant
            i <= sequence.len(),
            at + sequence.len() <= content.len(),
            forall|k: int| 0 <= k < i ==> content@[at + k] == sequence@[k],
        decreases sequence.len() - i,
    {
        if content[at + i] != sequence[i] {
            proof {
                let window = content@.subrange(at as int, at + sequence.len());
                assert(window[i as int] == content@[at + i]);
            }
            return false;
        }
        i += 1;
    }
    proof {
        let window = content@.subrange(at as int, at + sequence.len());
        assert forall|k: int| 0 <= k < window.len() implies window[k] == sequence@[k] by {
            assert(window[k] == content@[at + k]);
        }
    }
    true
}

/// Finds the first occurrence of `sequence` in `content` at or after
/// `start_index`. With `get_start` it reports where the match starts,
/// otherwise the position just behind it. A pattern that does not occur gives
/// `None`, whatever the buffer holds.
pub fn find_first(content: &[u8], start_index: usize, sequence: &[u8], get_start: bool) -> (found:
    Option<usize>)
    ensures
        as_index(found) == find_first_spec(content@, start_index as int, sequence@, get_start),
        found is None <==> forall|at: int|
            start_index <= at ==> !matches_at(content@, at, sequence@),
        found matches Some(offset) ==> {
            let at = if get_start {
                offset as int
            } else {
                offset - sequence@.len()
            };
            &&& start_index <= at
            &&& matches_at(content@, at, sequence@)
            &&& forall|earlier: int|
                start_index <= earlier < at ==> !matches_at(content@, earlier, sequence@)
        },
{
    let mut counter: usize = start_index;
    proof {
        lemma_first_match_is_lowest(content@, start_index as int, sequence@);
    }
    while counter < content.len()
        invariant
            start_index <= counter,
            forall|at: int| start_index <= at < counter ==> !matches_at(content@, at, sequence@),
            first_match(content@, counter as int, sequence@) == first_match(
                content@,
                start_index as int,
                sequence@,
            ),
        decreases content.len() - counter,
    {
        if is_sequence_at(content, counter, sequence) {
            if get_start {
                return Some(counter);
            } else {
                return Some(counter + sequence.len());
            }
        }
        counter += 1;
    }
    None
}

/// Finds the first occurrence of `sequence` as `find_first` does, and reports
/// 0 where there is none. A caller cannot tell that 0 from a match reported at
/// offset 0.
pub fn get_index_from_sequence(
    content: &[u8],
    start_index: usize,
    sequence: &[u8],
    get_start: bool,
) -> (index: usize)
    ensures
        index as int == index_or_zero(
            find_first_spec(content@, start_index as int, sequence@, get_start),
        ),
        (forall|at: int| start_index <= at ==> !matches_at(content@, at, sequence@)) ==> index
            == 0,
{
    match find_first(content, start_index, sequence, get_start) {
        Some(offset) => offset,
        None => 0,
    }
}

/// Finds every occurrence of `sequence` in `content` at or after
/// `start_index`, from the left, skipping over each match before looking for
/// the next. The offsets come in ascending order.
pub fn get_all_indices_from_sequence(
    content: &[u8],
    start_index: usize,
    sequence: &[u8],
    get_start: bool,
) -> (indices: Vec<usize>)
    ensures
        as_indices(indices@) == find_all_spec(content@, start_index as int, sequence@, get_start),
{
    let mut indices: Vec<usize> = Vec::new();
    let mut counter: usize = start_index;
    let ghost mut found: Seq<int> = Seq::empty();
    while counter < content.len()
        invariant
            start_index <= counter,
            found.len() == indices@.len(),
            forall|k: int|
                0 <= k < found.len() ==> indices@[k] as int == anchor_offset(
                    #[trigger] found[k],
                    sequence@.len(),
                    get_start,
                ),
            all_matches(content@, start_index as int, sequence@) == found + all_matches(
                content@,
                counter as int,
                sequence@,
            ),
        decreases content.len() - counter,
    {
        if is_sequence_at(content, counter, sequence) {
            proof {
                let rest = all_matches(content@, counter + match_step(sequence@), sequence@);
                assert(found + (seq![counter as int] + rest) =~= found.push(counter as int)
                    + rest);
                found = found.push(counter as int);
            }
            if get_start {
                indices.push(counter);
            } else {
                indices.push(counter + sequence.len());
            }
            if sequence.len() == 0 {
                counter += 1;
            } else {
                counter += sequence.len();
            }
        } else {
            counter += 1;
        }
    }
    proof {
        assert(all_matches(content@, counter as int, sequence@) =~= Seq::<int>::empty());
        assert(all_matches(content@, start_index as int, sequence@) =~= found);
        assert(as_indices(indices@) =~= find_all_spec(
            content@,
            start_index as int,
            sequence@,
            get_start,
        ));
    }
    indices
}

} // verus!
