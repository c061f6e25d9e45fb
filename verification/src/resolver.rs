//! Finding the memory type for a resource: the first entry of the device's
//! memory type table that the resource can use and that has the properties
//! asked for.

use crate::device::{ActiveDevice, MemoryType};
use crate::flags::{bit_is_set, FlagSet};
use vstd::prelude::*;

verus! {

/// The number of memory types that a compatibility mask can name.
pub const MASK_WIDTH: usize = 32;

/// No memory type that the resource can use has the properties asked for.
#[derive(Clone, Copy, Debug, PartialEq, Eq, Structural)]
pub struct NoCompatibleMemoryTypeError {
    /// The mask of the memory types that the resource can use.
    pub compatible_types: u32,
    /// The properties that were asked for.
    pub required: FlagSet,
}

/// Memory type `i` of `table` qualifies: its bit is set in the mask and its
/// properties include those that are required.
pub open spec fn qualifies(table: Seq<MemoryType>, compatible_types: u32, required: FlagSet, i: int) -> bool {
    &&& 0 <= i < table.len()
    &&& bit_is_set(compatible_types as u64, i)
    &&& table[i].property_flags.includes(required)
}

/// `i` is the lowest index that qualifies.
pub open spec fn lowest_qualifying(
    table: Seq<MemoryType>,
    compatible_types: u32,
    required: FlagSet,
    i: int,
) -> bool {
    &&& qualifies(table, compatible_types, required, i)
    &&& forall|j: int| 0 <= j < i ==> !qualifies(table, compatible_types, required, j)
}

/// No index qualifies.
pub open spec fn none_qualifies(table: Seq<MemoryType>, compatible_types: u32, required: FlagSet) -> bool {
    forall|j: int| !qualifies(table, compatible_types, required, j)
}

/// The index that a search for a memory type gives: the lowest one that
/// qualifies, or `None` where no index qualifies.
pub open spec fn resolution(table: Seq<MemoryType>, compatible_types: u32, required: FlagSet) -> Option<u32> {
    if exists|i: int| lowest_qualifying(table, compatible_types, required, i) {
        Some((choose|i: int| lowest_qualifying(table, compatible_types, required, i)) as u32)
    } else {
        None
    }
}

/// A bit of the upper half of a widened 32-bit mask is never set.
proof fn lemma_mask_is_narrow(mask: u32, i: int)
    requires
        32 <= i,
    ensures
        !bit_is_set(mask as u64, i),
{
    if i < 64 {
        let k = i as u64;
        assert(((mask as u64) >> k) & 1 != 1) by (bit_vector)
            requires
                32 <= k < 64,
        ;
    }
}

/// The index of the first memory type of `table` whose bit is set in
/// `compatible_types` and whose properties include `required`. Where no
/// memory type qualifies the search fails, with the request in the error.
pub fn resolve(table: &Vec<MemoryType>, compatible_types: u32, required: FlagSet) -> (r: Result<
    u32,
    NoCompatibleMemoryTypeError,
>)
    ensures
        match r {
            Ok(i) => lowest_qualifying(table@, compatible_types, required, i as int),
            Err(e) => none_qualifies(table@, compatible_types, required) && e.compatible_types
                == compatible_types && e.required == required,
        },
        r.is_ok() == resolution(table@, compatible_types, required).is_some(),
        r.is_ok() ==> resolution(table@, compatible_types, required) == Some(r.unwrap()),
{
    let mask = FlagSet::from_bits(compatible_types as u64);
    let mut i: usize = 0;
    while i < table.len() && i < MASK_WIDTH
        invariant
            i <= table.len(),
            i <= MASK_WIDTH,
            mask.bits == compatible_types as u64,
            forall|j: int| 0 <= j < i ==> !qualifies(table@, compatible_types, required, j),
        decreases table.len() - i,
    {
        if mask.has(i as u64) && table[i].property_flags.contains_all(required) {
            proof {
                lemma_resolution_determined(table@, compatible_types, required, i as int, 0);
                lemma_resolution_is_lowest(table@, compatible_types, required, i as int);
            }
            return Ok(i as u32);
        }
        i = i + 1;
    }
    proof {
        assert forall|j: int| !qualifies(table@, compatible_types, required, j) by {
            if j >= 32 {
                lemma_mask_is_narrow(compatible_types, j);
            }
        }
    }
    Err(NoCompatibleMemoryTypeError { compatible_types, required })
}

impl ActiveDevice {
    /// The index of the first memory type of the device whose bit is set in
    /// `compatible_types` and whose properties include `required`.
    pub fn memory_type_index(&self, compatible_types: u32, required: FlagSet) -> (r: Result<
        u32,
        NoCompatibleMemoryTypeError,
    >)
        ensures
            match r {
                Ok(i) => lowest_qualifying(self.memory_types@, compatible_types, required, i as int),
                Err(e) => none_qualifies(self.memory_types@, compatible_types, required)
                    && e.compatible_types == compatible_types && e.required == required,
            },
            r.is_ok() == resolution(self.memory_types@, compatible_types, required).is_some(),
            r.is_ok() ==> resolution(self.memory_types@, compatible_types, required) == Some(
                r.unwrap(),
            ),
    {
        resolve(&self.memory_types, compatible_types, required)
    }
}

/// The outcome of a search is determined by the request: at most one index
/// is the lowest that qualifies, and there is one exactly when some index
/// qualifies.
pub proof fn lemma_resolution_determined(
    table: Seq<MemoryType>,
    compatible_types: u32,
    required: FlagSet,
    i: int,
    j: int,
)
    requires
        lowest_qualifying(table, compatible_types, required, i),
    ensures
        !none_qualifies(table, compatible_types, required),
        lowest_qualifying(table, compatible_types, required, j) ==> i == j,
        qualifies(table, compatible_types, required, j) ==> i <= j,
        0 <= i < 32,
{
    if i >= 32 {
        lemma_mask_is_narrow(compatible_types, i);
    }
}

/// The lowest qualifying index is what the search gives.
pub proof fn lemma_resolution_is_lowest(
    table: Seq<MemoryType>,
    compatible_types: u32,
    required: FlagSet,
    i: int,
)
    requires
        lowest_qualifying(table, compatible_types, required, i),
    ensures
        resolution(table, compatible_types, required) == Some(i as u32),
        0 <= i < 32,
{
    let c = choose|c: int| lowest_qualifying(table, compatible_types, required, c);
    lemma_resolution_determined(table, compatible_types, required, i, c);
}

/// What the search gives is the lowest qualifying index.
pub proof fn lemma_resolution_some(
    table: Seq<MemoryType>,
    compatible_types: u32,
    required: FlagSet,
    index: u32,
)
    requires
        resolution(table, compatible_types, required) == Some(index),
    ensures
        lowest_qualifying(table, compatible_types, required, index as int),
{
    let c = choose|c: int| lowest_qualifying(table, compatible_types, required, c);
    lemma_resolution_determined(table, compatible_types, required, c, c);
}

/// The search fails exactly when no index qualifies.
pub proof fn lemma_resolution_none(table: Seq<MemoryType>, compatible_types: u32, required: FlagSet)
    ensures
        resolution(table, compatible_types, required).is_none() <==> none_qualifies(
            table,
            compatible_types,
            required,
        ),
{
    if !none_qualifies(table, compatible_types, required) {
        let k = choose|k: int| qualifies(table, compatible_types, required, k);
        let i = lemma_resolution_exists(table, compatible_types, required, k);
    }
}

/// Where some index qualifies there is a lowest one, so the search succeeds.
pub proof fn lemma_resolution_exists(
    table: Seq<MemoryType>,
    compatible_types: u32,
    required: FlagSet,
    k: int,
) -> (i: int)
    requires
        qualifies(table, compatible_types, required, k),
    ensures
        lowest_qualifying(table, compatible_types, required, i),
        i <= k,
    decreases k,
{
    if exists|j: int| 0 <= j < k && qualifies(table, compatible_types, required, j) {
        let j = choose|j: int| 0 <= j < k && qualifies(table, compatible_types, required, j);
        lemma_resolution_exists(table, compatible_types, required, j)
    } else {
        k
    }
}

} // verus!
