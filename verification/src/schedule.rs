//! The sizes that a pass attempts: a geometric sequence that starts at
//! 16 MiB, doubles at each step and has eleven terms, so that it ends at
//! 16 GiB.

use vstd::arithmetic::power2::{lemma2_to64, lemma_pow2_strictly_increases, lemma_pow2_unfold, pow2};
use vstd::prelude::*;

verus! {

/// The first size of the sequence, in bytes: 16 MiB.
pub const BASE_SIZE: u64 = 16777216;

/// The factor between one size and the next.
pub const GROWTH_RATIO: u64 = 2;

/// The number of sizes in the sequence.
pub const SIZE_COUNT: usize = 11;

/// The size attempted at step `i`: sixteen mebibytes times two to the `i`.
pub open spec fn scheduled_size(i: nat) -> nat {
    16777216 * pow2(i)
}

/// The whole sequence of sizes, in the order in which they are attempted.
pub open spec fn scheduled_sizes() -> Seq<u64> {
    Seq::new(11, |i: int| scheduled_size(i as nat) as u64)
}

/// Every size of the sequence is at most 16 GiB, and so fits in a `u64`.
pub proof fn lemma_scheduled_size_bounded(i: nat)
    requires
        i < SIZE_COUNT,
    ensures
        BASE_SIZE <= scheduled_size(i) <= 0x4_0000_0000,
        scheduled_size(i) as u64 == scheduled_size(i),
{
    lemma2_to64();
    if i < 10 {
        lemma_pow2_strictly_increases(i, 10);
    }
    if 0 < i {
        lemma_pow2_strictly_increases(0, i);
    }
    assert(1 <= pow2(i) <= 1024);
    assert(16777216 * pow2(i) <= 16777216 * 1024) by (nonlinear_arith)
        requires
            pow2(i) <= 1024,
    ;
    assert(16777216 * pow2(i) >= 16777216) by (nonlinear_arith)
        requires
            pow2(i) >= 1,
    ;
}

/// Each size is twice the one before it.
pub proof fn lemma_scheduled_size_doubles(i: nat)
    ensures
        scheduled_size(i + 1) == GROWTH_RATIO * scheduled_size(i),
{
    lemma_pow2_unfold(i + 1);
    assert(16777216 * (2 * pow2(i)) == 2 * (16777216 * pow2(i))) by (nonlinear_arith);
}

/// The sizes are strictly increasing: a later step attempts a larger size.
pub proof fn lemma_scheduled_sizes_increase(i: nat, j: nat)
    requires
        i < j,
    ensures
        scheduled_size(i) < scheduled_size(j),
{
    lemma_pow2_strictly_increases(i, j);
    assert(16777216 * pow2(i) < 16777216 * pow2(j)) by (nonlinear_arith)
        requires
            pow2(i) < pow2(j),
    ;
}

/// The sequence has eleven terms, term `i` is `16 MiB * 2^i`, and the terms
/// are strictly increasing.
pub proof fn lemma_scheduled_sizes_shape()
    ensures
        scheduled_sizes().len() == SIZE_COUNT,
        scheduled_sizes()[0] == BASE_SIZE,
        scheduled_sizes()[10] == 0x4_0000_0000u64,
        forall|i: int| 0 <= i < 11 ==> #[trigger] scheduled_sizes()[i] == 16777216 * pow2(i as nat),
        forall|i: int, j: int|
            0 <= i < j < 11 ==> #[trigger] scheduled_sizes()[i] < #[trigger] scheduled_sizes()[j],
{
    lemma2_to64();
    assert forall|i: int| 0 <= i < 11 implies #[trigger] scheduled_sizes()[i] == 16777216 * pow2(
        i as nat,
    ) by {
        lemma_scheduled_size_bounded(i as nat);
    }
    assert forall|i: int, j: int| 0 <= i < j < 11 implies #[trigger] scheduled_sizes()[i]
        < #[trigger] scheduled_sizes()[j] by {
        lemma_scheduled_size_bounded(i as nat);
        lemma_scheduled_size_bounded(j as nat);
        lemma_scheduled_sizes_increase(i as nat, j as nat);
    }
}

/// The size attempted at step `i`, or `None` where the sequence has no such
/// step.
pub fn size_at(i: usize) -> (r: Option<u64>)
    ensures
        i < SIZE_COUNT ==> r == Some(scheduled_size(i as nat) as u64),
        i < SIZE_COUNT ==> r.unwrap() == scheduled_size(i as nat),
        i >= SIZE_COUNT ==> r.is_none(),
{
    if i >= SIZE_COUNT {
        return None;
    }
    let mut size: u64 = BASE_SIZE;
    let mut k: usize = 0;
    proof {
        lemma2_to64();
    }
    while k < i
        invariant
            k <= i < SIZE_COUNT,
            size == scheduled_size(k as nat),
        decreases i - k,
    {
        proof {
            lemma_scheduled_size_doubles(k as nat);
            lemma_scheduled_size_bounded((k + 1) as nat);
        }
        size = size * GROWTH_RATIO;
        k = k + 1;
    }
    Some(size)
}

/// The whole sequence of sizes.
pub fn size_sequence() -> (r: Vec<u64>)
    ensures
        r@ == scheduled_sizes(),
{
    let mut sizes: Vec<u64> = Vec::new();
    let mut size: u64 = BASE_SIZE;
    let mut k: usize = 0;
    proof {
        lemma2_to64();
    }
    while k < SIZE_COUNT
        invariant
            k <= SIZE_COUNT,
            sizes@.len() == k,
            k < SIZE_COUNT ==> size == scheduled_size(k as nat),
            forall|j: int| 0 <= j < k ==> #[trigger] sizes@[j] == scheduled_size(j as nat),
        decreases SIZE_COUNT - k,
    {
        sizes.push(size);
        if k + 1 < SIZE_COUNT {
            proof {
                lemma_scheduled_size_doubles(k as nat);
                lemma_scheduled_size_bounded((k + 1) as nat);
            }
            size = size * GROWTH_RATIO;
        }
        k = k + 1;
    }
    proof {
        assert forall|j: int| 0 <= j < 11 implies sizes@[j] == #[trigger] scheduled_sizes()[j] by {
            lemma_scheduled_size_bounded(j as nat);
        }
        assert(sizes@ =~= scheduled_sizes());
    }
    sizes
}

} // verus!
