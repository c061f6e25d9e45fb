//! Sets of capability flags, one bit per flag.
//!
//! Memory property flags, queue capability flags and device features are all
//! small sets over a fixed universe, held as the bits of a `u64`.

use vstd::prelude::*;

verus! {

/// Memory that resides on the device.
pub const MEMORY_DEVICE_LOCAL: u64 = 0x1;

/// Memory that the host can map.
pub const MEMORY_HOST_VISIBLE: u64 = 0x2;

/// Host-visible memory that needs no explicit flushes.
pub const MEMORY_HOST_COHERENT: u64 = 0x4;

/// Host-visible memory that is cached on the host.
pub const MEMORY_HOST_CACHED: u64 = 0x8;

/// Memory that the device may commit lazily.
pub const MEMORY_LAZILY_ALLOCATED: u64 = 0x10;

/// A queue family that accepts graphics commands.
pub const QUEUE_GRAPHICS: u64 = 0x1;

/// A queue family that accepts compute commands.
pub const QUEUE_COMPUTE: u64 = 0x2;

/// A queue family that accepts transfer commands.
pub const QUEUE_TRANSFER: u64 = 0x4;

/// A queue family that accepts sparse binding commands.
pub const QUEUE_SPARSE_BINDING: u64 = 0x8;

/// Geometry shader support.
pub const FEATURE_GEOMETRY_SHADER: u64 = 0x10;

/// Anisotropic sampling support.
pub const FEATURE_SAMPLER_ANISOTROPY: u64 = 0x80000;

/// A buffer that can be bound as a uniform buffer.
pub const BUFFER_USAGE_UNIFORM: u64 = 0x10;

/// Whether flag number `i` is present in `bits`.
pub open spec fn bit_is_set(bits: u64, i: int) -> bool {
    0 <= i < 64 && (bits >> (i as u64)) & 1 == 1
}

/// A set of flags.
#[derive(Clone, Copy, Debug, PartialEq, Eq, Structural)]
pub struct FlagSet {
    pub bits: u64,
}

impl View for FlagSet {
    type V = Set<int>;

    /// The numbers of the flags that are present.
    open spec fn view(&self) -> Set<int> {
        Set::new(|i: int| bit_is_set(self.bits, i))
    }
}

impl FlagSet {
    /// `self` holds every flag of `required`.
    pub open spec fn includes(self, required: FlagSet) -> bool {
        self.bits & required.bits == required.bits
    }

    /// The set without any flag.
    pub fn empty() -> (r: FlagSet)
        ensures
            r.bits == 0,
            r@ == Set::<int>::empty(),
    {
        let r = FlagSet { bits: 0 };
        proof {
            assert forall|i: int| !bit_is_set(0u64, i) by {
                if 0 <= i < 64 {
                    let k = i as u64;
                    assert((0u64 >> k) & 1 != 1) by (bit_vector);
                }
            }
            assert(r@ =~= Set::<int>::empty());
        }
        r
    }

    /// The set whose flags are the bits of `bits`.
    pub fn from_bits(bits: u64) -> (r: FlagSet)
        ensures
            r.bits == bits,
    {
        FlagSet { bits }
    }

    /// The flags as bits.
    pub fn bits(&self) -> (r: u64)
        ensures
            r == self.bits,
    {
        self.bits
    }

    /// Whether flag number `i` is present.
    pub fn has(&self, i: u64) -> (r: bool)
        ensures
            r == self@.contains(i as int),
    {
        i < 64 && (self.bits >> i) & 1 == 1
    }

    /// Whether `self` holds every flag of `required`.
    pub fn contains_all(&self, required: FlagSet) -> (r: bool)
        ensures
            r == self.includes(required),
            r == required@.subset_of(self@),
    {
        proof {
            lemma_includes_is_subset(*self, required);
        }
        self.bits & required.bits == required.bits
    }

    /// The flags of either set.
    pub fn union(&self, other: FlagSet) -> (r: FlagSet)
        ensures
            r.bits == self.bits | other.bits,
            r@ == self@.union(other@),
    {
        let r = FlagSet { bits: self.bits | other.bits };
        proof {
            let a = self.bits;
            let b = other.bits;
            assert forall|i: int| bit_is_set(a | b, i) == (bit_is_set(a, i) || bit_is_set(b, i)) by {
                if 0 <= i < 64 {
                    let k = i as u64;
                    assert((((a | b) >> k) & 1 == 1) == (((a >> k) & 1 == 1) || ((b >> k) & 1 == 1)))
                        by (bit_vector);
                }
            }
            assert(r@ =~= self@.union(other@));
        }
        r
    }
}

/// The low `n` bits of `x`.
spec fn low_bits(x: u64, n: nat) -> u64
    recommends
        n <= 64,
{
    if n >= 64 {
        x
    } else {
        x & (((1u64 << (n as u64)) - 1) as u64)
    }
}

proof fn lemma_low_bits_step(x: u64, y: u64, n: nat)
    requires
        n < 64,
        low_bits(x, n) == low_bits(y, n),
        bit_is_set(x, n as int) == bit_is_set(y, n as int),
    ensures
        low_bits(x, n + 1) == low_bits(y, n + 1),
{
    let k = n as u64;
    if n + 1 < 64 {
        assert(x & (((1u64 << ((k + 1) as u64)) - 1) as u64) == y & (((1u64 << ((k + 1) as u64)) - 1) as u64))
            by (bit_vector)
            requires
                k < 63,
                x & (((1u64 << k) - 1) as u64) == y & (((1u64 << k) - 1) as u64),
                ((x >> k) & 1 == 1) == ((y >> k) & 1 == 1),
        ;
    } else {
        assert(x == y) by (bit_vector)
            requires
                k == 63,
                x & (((1u64 << k) - 1) as u64) == y & (((1u64 << k) - 1) as u64),
                ((x >> k) & 1 == 1) == ((y >> k) & 1 == 1),
        ;
    }
}

proof fn lemma_equal_bits_up_to(x: u64, y: u64, n: nat)
    requires
        n <= 64,
        forall|i: int| 0 <= i < n ==> bit_is_set(x, i) == bit_is_set(y, i),
    ensures
        low_bits(x, n) == low_bits(y, n),
    decreases n,
{
    if n == 0 {
        assert(x & (((1u64 << 0u64) - 1) as u64) == y & (((1u64 << 0u64) - 1) as u64)) by (bit_vector);
    } else {
        lemma_equal_bits_up_to(x, y, (n - 1) as nat);
        lemma_low_bits_step(x, y, (n - 1) as nat);
    }
}

/// Two `u64` values whose bits agree in every position are equal.
pub proof fn lemma_bits_determine_value(x: u64, y: u64)
    requires
        forall|i: int| 0 <= i < 64 ==> bit_is_set(x, i) == bit_is_set(y, i),
    ensures
        x == y,
{
    lemma_equal_bits_up_to(x, y, 64);
}

/// The bitwise test for inclusion says that the required flags are a subset
/// of the flags that are present.
pub proof fn lemma_includes_is_subset(have: FlagSet, required: FlagSet)
    ensures
        have.includes(required) == required@.subset_of(have@),
{
    let a = have.bits;
    let b = required.bits;
    if a & b == b {
        assert forall|i: int| required@.contains(i) implies have@.contains(i) by {
            let k = i as u64;
            assert((a >> k) & 1 == 1) by (bit_vector)
                requires
                    k < 64,
                    a & b == b,
                    (b >> k) & 1 == 1,
            ;
        }
    }
    if required@.subset_of(have@) {
        assert forall|i: int| 0 <= i < 64 implies bit_is_set(a & b, i) == bit_is_set(b, i) by {
            let k = i as u64;
            assert((((a & b) >> k) & 1 == 1) == (((a >> k) & 1 == 1) && ((b >> k) & 1 == 1)))
                by (bit_vector)
                requires
                    k < 64,
            ;
            if bit_is_set(b, i) {
                assert(required@.contains(i));
                assert(have@.contains(i));
            }
        }
        lemma_bits_determine_value(a & b, b);
    }
}

} // verus!
