//! Choosing a physical device: the first one, in the order in which the
//! devices are listed, that meets the criteria.

use crate::device::{find_unsupported, PhysicalDeviceDescriptor, SuitabilityCriteria};
use crate::flags::{bit_is_set, lemma_includes_is_subset};
use vstd::prelude::*;

verus! {

/// No device of the list meets the criteria.
#[derive(Clone, Copy, Debug, PartialEq, Eq, Structural)]
pub struct NoSuitableDeviceError {
    /// The number of devices that were examined.
    pub examined: usize,
}

/// A device is suitable when it supports every required extension, has a
/// queue family with every required capability, supports every required
/// feature and, where presentation is asked for, can present on the surface.
pub open spec fn suitable(device: PhysicalDeviceDescriptor, criteria: SuitabilityCriteria) -> bool {
    &&& device.supports_extensions(criteria.required_extensions@)
    &&& device.has_queue_family(criteria.required_queue_flags)
    &&& device.supports_features(criteria.required_features)
    &&& criteria.requires_surface ==> device.presentable()
}

/// `i` is the place of the first suitable device of `devices`.
pub open spec fn first_suitable(
    devices: Seq<PhysicalDeviceDescriptor>,
    criteria: SuitabilityCriteria,
    i: int,
) -> bool {
    &&& 0 <= i < devices.len()
    &&& suitable(devices[i], criteria)
    &&& forall|j: int| 0 <= j < i ==> !suitable(#[trigger] devices[j], criteria)
}

/// No device of `devices` is suitable.
pub open spec fn none_suitable(
    devices: Seq<PhysicalDeviceDescriptor>,
    criteria: SuitabilityCriteria,
) -> bool {
    forall|j: int| 0 <= j < devices.len() ==> !suitable(#[trigger] devices[j], criteria)
}

/// Whether `device` meets `criteria`.
pub fn is_suitable(device: &PhysicalDeviceDescriptor, criteria: &SuitabilityCriteria) -> (r: bool)
    ensures
        r == suitable(*device, *criteria),
{
    if find_unsupported(&device.extensions, &criteria.required_extensions).is_some() {
        return false;
    }
    if device.find_queue_family(criteria.required_queue_flags).is_none() {
        return false;
    }
    if !device.features.contains_all(criteria.required_features) {
        return false;
    }
    if criteria.requires_surface {
        match &device.surface {
            Some(s) => s.is_presentable(),
            None => false,
        }
    } else {
        true
    }
}

/// The place of the first device of `devices` that meets `criteria`. Devices
/// are not ranked: among several suitable ones the first is taken. Where no
/// device is suitable the selection fails.
pub fn select(devices: &Vec<PhysicalDeviceDescriptor>, criteria: &SuitabilityCriteria) -> (r: Result<
    usize,
    NoSuitableDeviceError,
>)
    ensures
        match r {
            Ok(i) => first_suitable(devices@, *criteria, i as int),
            Err(e) => none_suitable(devices@, *criteria) && e.examined == devices@.len(),
        },
{
    let mut i: usize = 0;
    while i < devices.len()
        invariant
            i <= devices.len(),
            forall|j: int| 0 <= j < i ==> !suitable(#[trigger] devices@[j], *criteria),
        decreases devices.len() - i,
    {
        if is_suitable(&devices[i], criteria) {
            return Ok(i);
        }
        i = i + 1;
    }
    Err(NoSuitableDeviceError { examined: devices.len() })
}

/// At most one place is that of the first suitable device, and there is one
/// exactly when some device is suitable.
pub proof fn lemma_first_suitable_unique(
    devices: Seq<PhysicalDeviceDescriptor>,
    criteria: SuitabilityCriteria,
    i: int,
    j: int,
)
    requires
        first_suitable(devices, criteria, i),
        first_suitable(devices, criteria, j),
    ensures
        i == j,
        !none_suitable(devices, criteria),
{
}

/// A device that lacks a required extension, has no queue family with the
/// required capabilities, or lacks a required feature is never the one
/// selected.
pub proof fn lemma_unsuitable_never_selected(
    devices: Seq<PhysicalDeviceDescriptor>,
    criteria: SuitabilityCriteria,
    selected: int,
    k: int,
)
    requires
        first_suitable(devices, criteria, selected),
        0 <= k < devices.len(),
        !devices[k].supports_extensions(criteria.required_extensions@) || !devices[k].has_queue_family(
            criteria.required_queue_flags,
        ) || !devices[k].supports_features(criteria.required_features) || (criteria.requires_surface
            && !devices[k].presentable()),
    ensures
        selected != k,
{
}

/// Where a feature is required, a device without it is not suitable. The
/// feature is given by its number.
pub proof fn lemma_missing_feature_unsuitable(
    device: PhysicalDeviceDescriptor,
    criteria: SuitabilityCriteria,
    feature: int,
)
    requires
        bit_is_set(criteria.required_features.bits, feature),
        !bit_is_set(device.features.bits, feature),
    ensures
        !suitable(device, criteria),
{
    lemma_includes_is_subset(device.features, criteria.required_features);
    assert(criteria.required_features@.contains(feature));
    assert(!device.features@.contains(feature));
}

/// A device without a required extension is not suitable.
pub proof fn lemma_missing_extension_unsuitable(
    device: PhysicalDeviceDescriptor,
    criteria: SuitabilityCriteria,
    k: int,
)
    requires
        0 <= k < criteria.required_extensions@.len(),
        !device.extension_set().contains(criteria.required_extensions@[k]@),
    ensures
        !suitable(device, criteria),
{
    let names = crate::device::name_seq(criteria.required_extensions@);
    assert(names[k] == criteria.required_extensions@[k]@);
    assert(names.contains(criteria.required_extensions@[k]@));
}

/// First match: a suitable device is selected over every suitable device
/// that is listed after it, and the selected device is the earliest suitable
/// one.
pub proof fn lemma_first_match(
    devices: Seq<PhysicalDeviceDescriptor>,
    criteria: SuitabilityCriteria,
    selected: int,
    k: int,
)
    requires
        first_suitable(devices, criteria, selected),
        0 <= k < devices.len(),
        suitable(devices[k], criteria),
    ensures
        selected <= k,
{
}

} // verus!
