//! What is known of a device: the capabilities that a physical device
//! reports, the criteria that a device has to meet, and the device that a run
//! works on once it has been created.

use crate::flags::FlagSet;
use vstd::prelude::*;

verus! {

/// One queue family of a physical device.
#[derive(Clone, Copy, Debug, PartialEq, Eq, Structural)]
pub struct QueueFamily {
    /// The family's index on its device.
    pub index: u32,
    /// What the queues of the family can do.
    pub flags: FlagSet,
}

/// One entry of a device's memory type table. Its type index is its place in
/// the table.
#[derive(Clone, Copy, Debug, PartialEq, Eq, Structural)]
pub struct MemoryType {
    /// The properties of memory of this type.
    pub property_flags: FlagSet,
    /// The heap that memory of this type comes from.
    pub heap_index: u32,
}

/// What a device supports on a presentation surface.
#[derive(Clone, Debug)]
pub struct SurfaceSupport {
    /// The surface formats that the device supports.
    pub formats: Vec<u32>,
    /// The presentation modes that the device supports.
    pub present_modes: Vec<u32>,
}

impl SurfaceSupport {
    /// The device can present on the surface: it supports at least one format
    /// and at least one presentation mode.
    pub open spec fn presentable(self) -> bool {
        self.formats@.len() > 0 && self.present_modes@.len() > 0
    }

    /// Whether the device can present on the surface.
    pub fn is_presentable(&self) -> (r: bool)
        ensures
            r == self.presentable(),
    {
        self.formats.len() > 0 && self.present_modes.len() > 0
    }
}

/// The capabilities that a physical device reports.
#[derive(Clone, Debug)]
pub struct PhysicalDeviceDescriptor {
    /// The names of the extensions that the device supports.
    pub extensions: Vec<Vec<u8>>,
    /// The features that the device supports.
    pub features: FlagSet,
    /// The device's queue families, in the order in which it lists them.
    pub queue_families: Vec<QueueFamily>,
    /// The device's memory type table.
    pub memory_types: Vec<MemoryType>,
    /// What the device supports on the presentation surface, where a surface
    /// was supplied.
    pub surface: Option<SurfaceSupport>,
}

/// What a physical device has to offer to be chosen.
#[derive(Clone, Debug)]
pub struct SuitabilityCriteria {
    /// The names of the extensions that the device must support.
    pub required_extensions: Vec<Vec<u8>>,
    /// The capabilities that one queue family must have together.
    pub required_queue_flags: FlagSet,
    /// The features that the device must support.
    pub required_features: FlagSet,
    /// Whether the device must be able to present on the surface.
    pub requires_surface: bool,
}

/// The names in `names`, each as a sequence of bytes.
pub open spec fn name_seq(names: Seq<Vec<u8>>) -> Seq<Seq<u8>> {
    names.map_values(|n: Vec<u8>| n@)
}

/// The set of names in `names`.
pub open spec fn name_set(names: Seq<Vec<u8>>) -> Set<Seq<u8>> {
    name_seq(names).to_set()
}

/// Whether two names are the same.
pub fn names_equal(a: &Vec<u8>, b: &Vec<u8>) -> (r: bool)
    ensures
        r == (a@ == b@),
{
    if a.len() != b.len() {
        return false;
    }
    let mut i: usize = 0;
    while i < a.len()
        invariant
            i <= a.len(),
            a.len() == b.len(),
            forall|k: int| 0 <= k < i ==> a@[k] == b@[k],
        decreases a.len() - i,
    {
        if a[i] != b[i] {
            return false;
        }
        i = i + 1;
    }
    assert(a@ =~= b@);
    true
}

/// Whether `name` is one of `names`.
pub fn names_contain(names: &Vec<Vec<u8>>, name: &Vec<u8>) -> (r: bool)
    ensures
        r == name_set(names@).contains(name@),
{
    let mut i: usize = 0;
    while i < names.len()
        invariant
            i <= names.len(),
            forall|k: int| 0 <= k < i ==> names@[k]@ != name@,
        decreases names.len() - i,
    {
        if names_equal(&names[i], name) {
            proof {
                assert(name_seq(names@)[i as int] == name@);
                assert(name_seq(names@).contains(name@));
            }
            return true;
        }
        i = i + 1;
    }
    proof {
        if name_set(names@).contains(name@) {
            let k = choose|k: int| 0 <= k < name_seq(names@).len() && name_seq(names@)[k] == name@;
            assert(names@[k]@ == name@);
        }
    }
    false
}

/// A copy of `names`.
pub fn copy_names(names: &Vec<Vec<u8>>) -> (r: Vec<Vec<u8>>)
    ensures
        name_seq(r@) == name_seq(names@),
{
    let mut r: Vec<Vec<u8>> = Vec::new();
    let mut i: usize = 0;
    while i < names.len()
        invariant
            i <= names.len(),
            r@.len() == i,
            forall|k: int| 0 <= k < i ==> r@[k]@ == names@[k]@,
        decreases names.len() - i,
    {
        let name = &names[i];
        let mut copy: Vec<u8> = Vec::new();
        let mut j: usize = 0;
        while j < name.len()
            invariant
                j <= name.len(),
                copy@ == name@.take(j as int),
            decreases name.len() - j,
        {
            copy.push(name[j]);
            proof {
                assert(name@.take(j + 1) =~= name@.take(j as int).push(name@[j as int]));
            }
            j = j + 1;
        }
        proof {
            assert(name@.take(j as int) =~= name@);
        }
        r.push(copy);
        i = i + 1;
    }
    proof {
        assert(name_seq(r@) =~= name_seq(names@));
    }
    r
}

/// A copy of `table`.
pub fn copy_memory_types(table: &Vec<MemoryType>) -> (r: Vec<MemoryType>)
    ensures
        r@ == table@,
{
    let mut r: Vec<MemoryType> = Vec::new();
    let mut i: usize = 0;
    while i < table.len()
        invariant
            i <= table.len(),
            r@ == table@.take(i as int),
        decreases table.len() - i,
    {
        r.push(table[i]);
        proof {
            assert(table@.take(i + 1) =~= table@.take(i as int).push(table@[i as int]));
        }
        i = i + 1;
    }
    proof {
        assert(table@.take(i as int) =~= table@);
    }
    r
}

/// The place in `required` of the first name that is not among `supported`,
/// or the length of `required` where every name is supported.
pub open spec fn first_unsupported(supported: Seq<Vec<u8>>, required: Seq<Vec<u8>>) -> int
    decreases required.len(),
{
    if required.len() == 0 {
        0
    } else if !name_set(supported).contains(required[0]@) {
        0
    } else {
        1 + first_unsupported(supported, required.skip(1))
    }
}

/// `first_unsupported` is the least place of an unsupported name.
pub proof fn lemma_first_unsupported(supported: Seq<Vec<u8>>, required: Seq<Vec<u8>>)
    ensures
        0 <= first_unsupported(supported, required) <= required.len(),
        forall|k: int|
            0 <= k < first_unsupported(supported, required) ==> name_set(supported).contains(
                #[trigger] required[k]@,
            ),
        first_unsupported(supported, required) < required.len() ==> !name_set(supported).contains(
            required[first_unsupported(supported, required)]@,
        ),
        first_unsupported(supported, required) == required.len() <==> name_set(
            required,
        ).subset_of(name_set(supported)),
    decreases required.len(),
{
    let f = first_unsupported(supported, required);
    if required.len() == 0 {
        assert(name_seq(required) =~= Seq::<Seq<u8>>::empty());
        assert(name_set(required) =~= Set::<Seq<u8>>::empty());
    } else {
        let rest = required.skip(1);
        lemma_first_unsupported(supported, rest);
        if name_set(supported).contains(required[0]@) {
            assert forall|k: int| 0 <= k < f implies name_set(supported).contains(
                #[trigger] required[k]@,
            ) by {
                if k > 0 {
                    assert(required[k] == rest[k - 1]);
                }
            }
            if f < required.len() {
                assert(required[f] == rest[f - 1]);
            }
            if f == required.len() {
                assert forall|n: Seq<u8>| name_set(required).contains(n) implies name_set(
                    supported,
                ).contains(n) by {
                    let k = choose|k: int|
                        0 <= k < name_seq(required).len() && name_seq(required)[k] == n;
                    assert(required[k]@ == n);
                }
            } else {
                assert(name_seq(required)[f] == required[f]@);
                assert(name_seq(required).contains(required[f]@));
            }
        } else {
            assert(name_seq(required)[0] == required[0]@);
            assert(name_seq(required).contains(required[0]@));
        }
    }
}

/// The place in `required` of the first name that `supported` lacks, or
/// `None` where it holds them all.
pub fn find_unsupported(supported: &Vec<Vec<u8>>, required: &Vec<Vec<u8>>) -> (r: Option<usize>)
    ensures
        match r {
            Some(k) => k < required@.len() && k == first_unsupported(supported@, required@),
            None => first_unsupported(supported@, required@) == required@.len(),
        },
        r.is_none() <==> name_set(required@).subset_of(name_set(supported@)),
{
    proof {
        lemma_first_unsupported(supported@, required@);
    }
    let mut i: usize = 0;
    while i < required.len()
        invariant
            i <= required.len(),
            i <= first_unsupported(supported@, required@) <= required@.len(),
            forall|k: int|
                0 <= k < first_unsupported(supported@, required@) ==> name_set(
                    supported@,
                ).contains(#[trigger] required@[k]@),
            first_unsupported(supported@, required@) < required@.len() ==> !name_set(
                supported@,
            ).contains(required@[first_unsupported(supported@, required@)]@),
            first_unsupported(supported@, required@) == required@.len() <==> name_set(
                required@,
            ).subset_of(name_set(supported@)),
        decreases required.len() - i,
    {
        if !names_contain(supported, &required[i]) {
            return Some(i);
        }
        i = i + 1;
    }
    None
}

impl PhysicalDeviceDescriptor {
    /// The set of extension names that the device supports.
    pub open spec fn extension_set(self) -> Set<Seq<u8>> {
        name_set(self.extensions@)
    }

    /// The device supports every extension named in `required`.
    pub open spec fn supports_extensions(self, required: Seq<Vec<u8>>) -> bool {
        name_set(required).subset_of(self.extension_set())
    }

    /// One queue family of the device has every capability in `required`.
    pub open spec fn has_queue_family(self, required: FlagSet) -> bool {
        exists|k: int|
            0 <= k < self.queue_families@.len() && (#[trigger] self.queue_families@[k]).flags.includes(
                required,
            )
    }

    /// The device supports every feature in `required`.
    pub open spec fn supports_features(self, required: FlagSet) -> bool {
        self.features.includes(required)
    }

    /// The device can present on the surface that was supplied.
    pub open spec fn presentable(self) -> bool {
        match self.surface {
            Some(s) => s.presentable(),
            None => false,
        }
    }

    /// The place of the first queue family that has every capability in
    /// `required`, or `None` where no family has them.
    pub fn find_queue_family(&self, required: FlagSet) -> (r: Option<usize>)
        ensures
            r.is_some() == self.has_queue_family(required),
            match r {
                Some(k) => k < self.queue_families@.len() && self.queue_families@[k as int].flags.includes(
                    required,
                ) && forall|j: int|
                    0 <= j < k ==> !(#[trigger] self.queue_families@[j]).flags.includes(required),
                None => true,
            },
    {
        let mut i: usize = 0;
        while i < self.queue_families.len()
            invariant
                i <= self.queue_families.len(),
                forall|j: int|
                    0 <= j < i ==> !(#[trigger] self.queue_families@[j]).flags.includes(required),
            decreases self.queue_families.len() - i,
        {
            if self.queue_families[i].flags.contains_all(required) {
                return Some(i);
            }
            i = i + 1;
        }
        None
    }
}

/// A device that has been created: bound to one queue of one family, with a
/// fixed set of extensions and features enabled.
#[derive(Clone, Debug)]
pub struct ActiveDevice {
    /// The family of the device's queues.
    pub queue_family_index: u32,
    /// The number of queues that the device was created with.
    pub queue_count: u32,
    /// The names of the extensions that were enabled.
    pub enabled_extensions: Vec<Vec<u8>>,
    /// The features that were enabled.
    pub enabled_features: FlagSet,
    /// The memory type table of the physical device.
    pub memory_types: Vec<MemoryType>,
}

} // verus!
