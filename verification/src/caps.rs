//! Enumeration of the capability identifier spaces.
//!
//! Each fixed capability space (boolean, numeric, string) is a closed
//! enumeration bracketed by a `begin` and an `end` sentinel: the valid
//! identifiers are exactly `begin + 1 .. end`, the sentinels themselves
//! naming no capability.  Extended capability tables are per-terminal and
//! densely indexed: the valid indices for a table of `count` entries are
//! exactly `0 .. count`.

use vstd::prelude::*;

verus! {

/// The sentinels of the three fixed capability spaces, mirroring the
/// layout of the native library's capability enumerations: the boolean
/// range first, the numeric and string ranges following on, each
/// bracketed by its own begin and end sentinel, the three ranges
/// disjoint.  The valid identifiers of each space are those strictly
/// between its sentinels.
pub const BOOLEAN_BEGIN: u32 = 32;

pub const BOOLEAN_END: u32 = 77;

pub const NUMERIC_BEGIN: u32 = 77;

pub const NUMERIC_END: u32 = 117;

pub const STRING_BEGIN: u32 = 117;

pub const STRING_END: u32 = 532;

/// The identifiers of a fixed capability space with the given sentinels,
/// in ascending order: `begin + 1 .. end`, both sentinels excluded.
pub open spec fn id_range(begin: u32, end: u32) -> Seq<u32> {
    if begin < end {
        Seq::new((end - begin - 1) as nat, |i: int| (begin + 1 + i) as u32)
    } else {
        Seq::empty()
    }
}

/// The indices of an extended capability table with `count` entries, in
/// ascending order: `0 .. count`.
pub open spec fn index_range(count: u64) -> Seq<u64> {
    Seq::new(count as nat, |i: int| i as u64)
}

/// Materializes the identifiers of a fixed capability space, given its
/// `begin` and `end` sentinels: one identifier for each value strictly
/// between the sentinels, in ascending declaration order.
pub fn capability_ids(begin: u32, end: u32) -> (r: Vec<u32>)
    ensures
        r@ == id_range(begin, end),
{
    let mut ids: Vec<u32> = Vec::new();
    if begin >= end {
        assert(ids@ =~= id_range(begin, end));
        return ids;
    }
    let mut current: u32 = begin + 1;
    while current < end
        invariant
            begin < end,
            begin + 1 <= current <= end,
            ids@ == id_range(begin, end).take(current - begin - 1),
        decreases end - current,
    {
        ids.push(current);
        current = current + 1;
        assert(ids@ =~= id_range(begin, end).take(current - begin - 1));
    }
    assert(ids@ =~= id_range(begin, end));
    ids
}

/// Materializes the indices of an extended capability table, given the
/// entry count the terminal reported: `0 .. count`, ascending.  A count of
/// zero yields the empty sequence.
pub fn extended_indices(count: u64) -> (r: Vec<u64>)
    requires
        count <= usize::MAX as u64,
    ensures
        r@ == index_range(count),
{
    let mut indices: Vec<u64> = Vec::new();
    let mut i: u64 = 0;
    while i < count
        invariant
            i <= count,
            indices@ == index_range(count).take(i as int),
        decreases count - i,
    {
        indices.push(i);
        i = i + 1;
        assert(indices@ =~= index_range(count).take(i as int));
    }
    assert(indices@ =~= index_range(count));
    indices
}

/// Materializes the identifiers of the boolean capability space: every
/// identifier strictly between its sentinels, ascending.
pub fn boolean_ids() -> (r: Vec<u32>)
    ensures
        r@ == id_range(BOOLEAN_BEGIN, BOOLEAN_END),
{
    capability_ids(BOOLEAN_BEGIN, BOOLEAN_END)
}

/// Materializes the identifiers of the numeric capability space: every
/// identifier strictly between its sentinels, ascending.
pub fn numeric_ids() -> (r: Vec<u32>)
    ensures
        r@ == id_range(NUMERIC_BEGIN, NUMERIC_END),
{
    capability_ids(NUMERIC_BEGIN, NUMERIC_END)
}

/// Materializes the identifiers of the string capability space: every
/// identifier strictly between its sentinels, ascending.
pub fn string_ids() -> (r: Vec<u32>)
    ensures
        r@ == id_range(STRING_BEGIN, STRING_END),
{
    capability_ids(STRING_BEGIN, STRING_END)
}

/// Reads the raw result of a boolean capability query: the capability is
/// supported exactly where the result is positive.
pub fn supported_from_raw(raw: i32) -> (r: bool)
    ensures
        r == (raw > 0),
{
    raw > 0
}

/// Enumeration of a fixed capability space is deterministic: any two
/// enumerations over the same sentinels yield identifier sequences in
/// identical order.
pub proof fn lemma_capability_ids_deterministic(a: Seq<u32>, b: Seq<u32>, begin: u32, end: u32)
    requires
        a == id_range(begin, end),
        b == id_range(begin, end),
    ensures
        a == b,
{
}

} // verus!
