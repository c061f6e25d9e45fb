//! The fixed configuration of a run: what a device must offer, and what is
//! enabled on the device that is created.

use crate::device::{name_seq, SuitabilityCriteria};
use crate::flags::{FlagSet, FEATURE_SAMPLER_ANISOTROPY, QUEUE_GRAPHICS};
use vstd::prelude::*;

verus! {

/// Whether validation layers are enabled.
pub const ENABLE_VALIDATION_LAYERS: bool = false;

/// The queue family that the device's queue is taken from.
pub const QUEUE_FAMILY_INDEX: u32 = 0;

/// The name of the swapchain extension, `VK_KHR_swapchain`, as bytes.
pub open spec fn swapchain_extension() -> Seq<u8> {
    seq![86u8, 75, 95, 75, 72, 82, 95, 115, 119, 97, 112, 99, 104, 97, 105, 110]
}

/// The names of the extensions that a device must support, and that are
/// enabled on the device that is created: the swapchain extension.
pub fn required_device_extensions() -> (r: Vec<Vec<u8>>)
    ensures
        name_seq(r@) == seq![swapchain_extension()],
{
    let mut name: Vec<u8> = Vec::new();
    name.push(86);
    name.push(75);
    name.push(95);
    name.push(75);
    name.push(72);
    name.push(82);
    name.push(95);
    name.push(115);
    name.push(119);
    name.push(97);
    name.push(112);
    name.push(99);
    name.push(104);
    name.push(97);
    name.push(105);
    name.push(110);
    proof {
        assert(name@ =~= swapchain_extension());
    }
    let mut r: Vec<Vec<u8>> = Vec::new();
    r.push(name);
    proof {
        assert(name_seq(r@) =~= seq![swapchain_extension()]);
    }
    r
}

/// The features that a device must support, and that are enabled on the
/// device that is created: anisotropic sampling.
pub fn required_features() -> (r: FlagSet)
    ensures
        r.bits == FEATURE_SAMPLER_ANISOTROPY,
{
    FlagSet::from_bits(FEATURE_SAMPLER_ANISOTROPY)
}

/// What a physical device has to offer to be chosen for a run: the required
/// extensions, a queue family that accepts graphics commands, and the
/// required features. A run presents nothing, so no surface is asked for.
pub fn standard_criteria() -> (r: SuitabilityCriteria)
    ensures
        name_seq(r.required_extensions@) == seq![swapchain_extension()],
        r.required_queue_flags.bits == QUEUE_GRAPHICS,
        r.required_features.bits == FEATURE_SAMPLER_ANISOTROPY,
        !r.requires_surface,
{
    SuitabilityCriteria {
        required_extensions: required_device_extensions(),
        required_queue_flags: FlagSet::from_bits(QUEUE_GRAPHICS),
        required_features: required_features(),
        requires_surface: false,
    }
}

} // verus!
