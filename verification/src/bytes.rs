//! Plain operations on byte strings: little-endian numbers, substring tests
//! and the cleaning of names.

use crate::scanner::{is_sequence_at, matches_at};
use vstd::prelude::*;
use vstd::slice::{slice_subrange, slice_to_vec};

verus! {

/// The number that two bytes hold, low byte first.
pub open spec fn u16_from_le(bytes: Seq<u8>) -> u16
    recommends
        bytes.len() == 2,
{
    (bytes[0] as int + 256 * (bytes[1] as int)) as u16
}

/// The number that four bytes hold, low byte first.
pub open spec fn u32_from_le(bytes: Seq<u8>) -> u32
    recommends
        bytes.len() == 4,
{
    (bytes[0] as int + 256 * (bytes[1] as int) + 65536 * (bytes[2] as int) + 16777216 * (
    bytes[3] as int)) as u32
}

/// The two bytes of a number, low byte first.
pub open spec fn u16_to_le(value: u16) -> Seq<u8> {
    seq![(value % 256) as u8, (value / 256) as u8]
}

/// The four bytes of a number, low byte first.
pub open spec fn u32_to_le(value: u32) -> Seq<u8> {
    seq![
        (value % 256) as u8,
        ((value / 256) % 256) as u8,
        ((value / 65536) % 256) as u8,
        (value / 16777216) as u8,
    ]
}

/// `needle` occurs in `hay` as a contiguous run that starts at `at`.
pub open spec fn occurs_at(needle: Seq<u8>, hay: Seq<u8>, at: int) -> bool {
    &&& 0 <= at
    &&& at + needle.len() <= hay.len()
    &&& hay.subrange(at, at + needle.len()) =~= needle
}

/// `needle` occurs somewhere in `hay`. The empty run occurs in every string.
pub open spec fn occurs_in(needle: Seq<u8>, hay: Seq<u8>) -> bool {
    exists|at: int| occurs_at(needle, hay, at)
}

/// An upper-case ASCII letter as its lower-case one; any other byte as it is.
pub open spec fn ascii_lower(byte: u8) -> u8 {
    if 65 <= byte <= 90 {
        (byte + 32) as u8
    } else {
        byte
    }
}

/// A byte string with its ASCII letters in lower case.
pub open spec fn lowered(text: Seq<u8>) -> Seq<u8> {
    text.map_values(|byte: u8| ascii_lower(byte))
}

/// `needle`, written in lower case, occurs in `hay` whatever the case of the
/// ASCII letters of `hay`.
pub open spec fn occurs_ignoring_case(needle: Seq<u8>, hay: Seq<u8>) -> bool {
    occurs_in(needle, lowered(hay))
}

/// A byte that belongs to a name: neither NUL nor the control byte 1.
pub open spec fn is_name_byte(byte: u8) -> bool {
    byte != 0 && byte != 1
}

/// A byte string without its NUL bytes and control bytes 1.
pub open spec fn without_controls(text: Seq<u8>) -> Seq<u8> {
    text.filter(|byte: u8| is_name_byte(byte))
}

/// `text` ends with `suffix`.
pub open spec fn ends_with(text: Seq<u8>, suffix: Seq<u8>) -> bool {
    &&& suffix.len() <= text.len()
    &&& text.subrange(text.len() - suffix.len(), text.len() as int) =~= suffix
}

/// `text` without every copy of `suffix` at its end.
pub open spec fn without_suffix(text: Seq<u8>, suffix: Seq<u8>) -> Seq<u8>
    decreases text.len(),
{
    if suffix.len() > 0 && ends_with(text, suffix) {
        without_suffix(text.take(text.len() - suffix.len()), suffix)
    } else {
        text
    }
}

/// Reading back the bytes of a 16-bit number gives the number.
pub proof fn lemma_u16_le_round_trip(value: u16)
    ensures
        u16_to_le(value).len() == 2,
        u16_from_le(u16_to_le(value)) == value,
{
}

/// Reading back the bytes of a 32-bit number gives the number.
pub proof fn lemma_u32_le_round_trip(value: u32)
    ensures
        u32_to_le(value).len() == 4,
        u32_from_le(u32_to_le(value)) == value,
{
}

/// Reads a 16-bit number, low byte first.
pub fn read_u16_le(bytes: &[u8]) -> (value: u16)
    requires
        bytes@.len() == 2,
    ensures
        value == u16_from_le(bytes@),
{
    let low: u16 = bytes[0] as u16;
    let high: u16 = bytes[1] as u16;
    low + high * 256
}

/// Reads a 32-bit number, low byte first.
pub fn read_u32_le(bytes: &[u8]) -> (value: u32)
    requires
        bytes@.len() == 4,
    ensures
        value == u32_from_le(bytes@),
{
    let b0: u32 = bytes[0] as u32;
    let b1: u32 = bytes[1] as u32;
    let b2: u32 = bytes[2] as u32;
    let b3: u32 = bytes[3] as u32;
    b0 + b1 * 256 + b2 * 65536 + b3 * 16777216
}

/// The two bytes of a 16-bit number, low byte first.
pub fn u16_le_bytes(value: u16) -> (bytes: Vec<u8>)
    ensures
        bytes@ == u16_to_le(value),
{
    let mut bytes: Vec<u8> = Vec::new();
    bytes.push((value % 256) as u8);
    bytes.push((value / 256) as u8);
    assert(bytes@ =~= u16_to_le(value));
    bytes
}

/// The four bytes of a 32-bit number, low byte first.
pub fn u32_le_bytes(value: u32) -> (bytes: Vec<u8>)
    ensures
        bytes@ == u32_to_le(value),
{
    let mut bytes: Vec<u8> = Vec::new();
    bytes.push((value % 256) as u8);
    bytes.push(((value / 256) % 256) as u8);
    bytes.push(((value / 65536) % 256) as u8);
    bytes.push((value / 16777216) as u8);
    assert(bytes@ =~= u32_to_le(value));
    bytes
}

/// Copies the bytes of `content` from `from` up to `to`.
pub fn copy_range(content: &[u8], from: usize, to: usize) -> (bytes: Vec<u8>)
    requires
        from <= to <= content@.len(),
    ensures
        bytes@ == content@.subrange(from as int, to as int),
{
    slice_to_vec(slice_subrange(content, from, to))
}

/// A vector of `count` zero bytes.
pub fn zero_bytes(count: usize) -> (bytes: Vec<u8>)
    ensures
        bytes@ == Seq::new(count as nat, |k: int| 0u8),
{
    let mut bytes: Vec<u8> = Vec::new();
    let mut i: usize = 0;
    while i < count
        invariant
            i <= count,
            bytes@ == Seq::new(i as nat, |k: int| 0u8),
        decreases count - i,
    {
        bytes.push(0);
        i += 1;
        assert(bytes@ =~= Seq::new(i as nat, |k: int| 0u8));
    }
    bytes
}

/// Tells whether two byte strings are equal.
pub fn same_bytes(left: &[u8], right: &[u8]) -> (same: bool)
    ensures
        same == (left@ == right@),
{
    if left.len() != right.len() {
        return false;
    }
    let mut i: usize = 0;
    while i < left.len()
        invariant
            i <= left.len(),
            left@.len() == right@.len(),
            forall|k: int| 0 <= k < i ==> left@[k] == right@[k],
        decreases left.len() - i,
    {
        if left[i] != right[i] {
            return false;
        }
        i += 1;
    }
    assert(left@ =~= right@);
    true
}

/// Tells whether `needle` occurs in `hay`.
pub fn contains_bytes(hay: &[u8], needle: &[u8]) -> (found: bool)
    ensures
        found == occurs_in(needle@, hay@),
{
    if needle.len() == 0 {
        assert(occurs_at(needle@, hay@, 0));
        return true;
    }
    let mut at: usize = 0;
    while at < hay.len()
        invariant
            needle@.len() > 0,
            forall|earlier: int| 0 <= earlier < at ==> !occurs_at(needle@, hay@, earlier),
        decreases hay.len() - at,
    {
        if is_sequence_at(hay, at, needle) {
            assert(occurs_at(needle@, hay@, at as int));
            return true;
        }
        assert(!occurs_at(needle@, hay@, at as int)) by {
            if occurs_at(needle@, hay@, at as int) {
                assert(matches_at(hay@, at as int, needle@));
            }
        }
        at += 1;
    }
    assert forall|k: int| !occurs_at(needle@, hay@, k) by {
        if k >= hay.len() {
            assert(k + needle@.len() > hay@.len());
        }
    }
    false
}

/// A copy of `text` with its ASCII letters in lower case.
pub fn to_ascii_lower(text: &[u8]) -> (lower: Vec<u8>)
    ensures
        lower@ == lowered(text@),
{
    let mut lower: Vec<u8> = Vec::new();
    let mut i: usize = 0;
    while i < text.len()
        invariant
            i <= text.len(),
            lower@.len() == i,
            forall|k: int| 0 <= k < i ==> lower@[k] == ascii_lower(text@[k]),
        decreases text.len() - i,
    {
        let byte: u8 = text[i];
        if 65 <= byte && byte <= 90 {
            lower.push(byte + 32);
        } else {
            lower.push(byte);
        }
        i += 1;
    }
    assert(lower@ =~= lowered(text@));
    lower
}

/// Tells whether the lower-case `needle` occurs in `hay` when the case of the
/// letters of `hay` is ignored.
pub fn contains_ignoring_case(hay: &[u8], needle: &[u8]) -> (found: bool)
    ensures
        found == occurs_ignoring_case(needle@, hay@),
{
    let lower: Vec<u8> = to_ascii_lower(hay);
    contains_bytes(lower.as_slice(), needle)
}

/// A copy of `text` without its NUL bytes and control bytes 1.
pub fn strip_controls(text: &[u8]) -> (clean: Vec<u8>)
    ensures
        clean@ == without_controls(text@),
{
    let mut clean: Vec<u8> = Vec::new();
    let mut i: usize = 0;
    assert(text@.take(0) =~= Seq::<u8>::empty());
    assert(without_controls(Seq::<u8>::empty()) =~= Seq::<u8>::empty()) by {
        reveal(Seq::filter);
    }
    while i < text.len()
        invariant
            i <= text.len(),
            clean@ == without_controls(text@.take(i as int)),
        decreases text.len() - i,
    {
        let byte: u8 = text[i];
        proof {
            assert(text@.take(i + 1) =~= text@.take(i as int).push(byte));
            text@.take(i as int).lemma_filter_push(byte, |b: u8| is_name_byte(b));
        }
        if byte != 0 && byte != 1 {
            clean.push(byte);
        }
        i += 1;
    }
    assert(text@.take(text@.len() as int) =~= text@);
    clean
}

/// Tells whether `text` ends with `suffix`.
pub fn has_suffix(text: &[u8], suffix: &[u8]) -> (found: bool)
    ensures
        found == ends_with(text@, suffix@),
{
    if suffix.len() > text.len() {
        return false;
    }
    if suffix.len() == 0 {
        assert(text@.subrange(text@.len() as int, text@.len() as int) =~= suffix@);
        return true;
    }
    is_sequence_at(text, text.len() - suffix.len(), suffix)
}

/// A copy of `text` without every copy of `suffix` at its end.
pub fn trim_suffix(text: &[u8], suffix: &[u8]) -> (trimmed: Vec<u8>)
    ensures
        trimmed@ == without_suffix(text@, suffix@),
{
    let mut end: usize = text.len();
    assert(text@.take(end as int) =~= text@);
    if suffix.len() > 0 {
        while has_suffix(slice_subrange(text, 0, end), suffix)
            invariant
                end <= text.len(),
                suffix@.len() > 0,
                without_suffix(text@, suffix@) == without_suffix(text@.take(end as int), suffix@),
            decreases end,
        {
            proof {
                let kept = text@.take(end as int);
                assert(text@.subrange(0, end as int) =~= kept);
                assert(kept.take(kept.len() - suffix@.len()) =~= text@.take(
                    end - suffix@.len(),
                ));
            }
            end = end - suffix.len();
        }
        assert(text@.subrange(0, end as int) =~= text@.take(end as int));
    }
    copy_range(text, 0, end)
}

} // verus!
