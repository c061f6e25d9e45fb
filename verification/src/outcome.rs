//! What one allocation attempt comes to: a success with its latency, or a
//! skip.

use crate::resources::{BufferResource, MemoryAllocation};
use vstd::prelude::*;

verus! {

/// The number of nanoseconds in a second.
pub const NANOS_PER_SECOND: u64 = 1_000_000_000;

/// How long an allocation took, in nanoseconds.
#[derive(Clone, Copy, Debug, PartialEq, Eq, Structural)]
pub struct Latency {
    /// The whole duration, in nanoseconds.
    pub nanos: u128,
}

impl Latency {
    /// The latency of `nanos` nanoseconds.
    pub fn from_nanos(nanos: u128) -> (r: Latency)
        ensures
            r.nanos == nanos,
    {
        Latency { nanos }
    }

    /// The latency of `secs` seconds and `subsec_nanos` nanoseconds. Where
    /// the nanoseconds are less than a second, they are the two parts that
    /// the latency is displayed in.
    pub fn from_parts(secs: u64, subsec_nanos: u32) -> (r: Latency)
        ensures
            r.nanos == secs * 1_000_000_000 + subsec_nanos,
            subsec_nanos < NANOS_PER_SECOND ==> r.whole_seconds() == secs && r.fraction_nanos()
                == subsec_nanos,
    {
        assert(secs * 1_000_000_000 + subsec_nanos <= u128::MAX) by (nonlinear_arith)
            requires
                secs <= u64::MAX,
                subsec_nanos <= u32::MAX,
        ;
        Latency { nanos: (secs as u128) * 1_000_000_000 + (subsec_nanos as u128) }
    }

    /// The whole seconds of the latency.
    pub open spec fn whole_seconds(self) -> nat {
        (self.nanos / 1_000_000_000) as nat
    }

    /// The nanoseconds of the latency beyond its whole seconds.
    pub open spec fn fraction_nanos(self) -> nat {
        (self.nanos % 1_000_000_000) as nat
    }

    /// The whole seconds of the latency.
    pub fn secs(&self) -> (r: u128)
        ensures
            r == self.whole_seconds(),
    {
        self.nanos / 1_000_000_000
    }

    /// The nanoseconds of the latency beyond its whole seconds: less than a
    /// thousand million.
    pub fn subsec_nanos(&self) -> (r: u32)
        ensures
            r == self.fraction_nanos(),
            r < NANOS_PER_SECOND,
            self.whole_seconds() * NANOS_PER_SECOND + r == self.nanos,
    {
        (self.nanos % 1_000_000_000) as u32
    }

    /// Whether the latency is more than nothing.
    pub fn is_positive(&self) -> (r: bool)
        ensures
            r == (self.nanos > 0),
    {
        self.nanos > 0
    }
}

/// Why an attempt was skipped.
#[derive(Clone, Copy, Debug, PartialEq, Eq, Structural)]
pub enum SkipReason {
    /// The device could not allocate the memory.
    OutOfMemory,
}

/// What one allocation attempt came to.
#[derive(Clone, Copy, Debug, PartialEq, Eq, Structural)]
pub enum AllocationOutcome {
    /// The memory was allocated and bound to the buffer. Both stay alive.
    Success { latency: Latency, buffer: BufferResource, allocation: MemoryAllocation },
    /// The memory could not be allocated. The buffer was discarded.
    Skipped { reason: SkipReason },
}

impl AllocationOutcome {
    /// Whether the attempt succeeded.
    pub fn is_success(&self) -> (r: bool)
        ensures
            r == (*self is Success),
    {
        match self {
            AllocationOutcome::Success { .. } => true,
            AllocationOutcome::Skipped { .. } => false,
        }
    }

    /// Whether the attempt was skipped.
    pub fn is_skipped(&self) -> (r: bool)
        ensures
            r == (*self is Skipped),
    {
        match self {
            AllocationOutcome::Success { .. } => false,
            AllocationOutcome::Skipped { .. } => true,
        }
    }
}

/// The buffers and allocations that are alive after the attempts that led to
/// `outcomes`: those of the successes, in order.
pub open spec fn live_resources(outcomes: Seq<AllocationOutcome>) -> Seq<(BufferResource, MemoryAllocation)>
    decreases outcomes.len(),
{
    if outcomes.len() == 0 {
        Seq::empty()
    } else {
        let earlier = live_resources(outcomes.drop_last());
        match outcomes.last() {
            AllocationOutcome::Success { buffer, allocation, .. } => earlier.push((buffer, allocation)),
            AllocationOutcome::Skipped { .. } => earlier,
        }
    }
}

/// The buffers and allocations that are alive after the attempts that led to
/// `outcomes`.
pub fn live(outcomes: &Vec<AllocationOutcome>) -> (r: Vec<(BufferResource, MemoryAllocation)>)
    ensures
        r@ == live_resources(outcomes@),
{
    let mut r: Vec<(BufferResource, MemoryAllocation)> = Vec::new();
    let mut i: usize = 0;
    while i < outcomes.len()
        invariant
            i <= outcomes.len(),
            r@ == live_resources(outcomes@.take(i as int)),
        decreases outcomes.len() - i,
    {
        proof {
            assert(outcomes@.take(i + 1).drop_last() =~= outcomes@.take(i as int));
        }
        match outcomes[i] {
            AllocationOutcome::Success { buffer, allocation, .. } => {
                r.push((buffer, allocation));
            },
            AllocationOutcome::Skipped { .. } => {},
        }
        i = i + 1;
    }
    proof {
        assert(outcomes@.take(i as int) =~= outcomes@);
    }
    r
}

} // verus!
