//! Setting up the device that a run works on: the request is checked against
//! what the physical device reports, and the device that results is bound to
//! one queue of the family asked for.

use crate::device::{
    copy_memory_types, copy_names, find_unsupported, first_unsupported, name_seq, ActiveDevice,
    PhysicalDeviceDescriptor,
};
use crate::flags::FlagSet;
use vstd::prelude::*;

verus! {

/// The number of queues that a device is created with.
pub const QUEUE_COUNT: u32 = 1;

/// The device cannot be created: the physical device lacks an extension that
/// was to be enabled.
#[derive(Clone, Copy, Debug, PartialEq, Eq, Structural)]
pub struct DeviceCreationError {
    /// The place, in the list of extensions asked for, of the first one that
    /// the physical device does not support.
    pub unsupported_extension: usize,
}

/// The device that is created on `physical`, with one queue of family
/// `queue_family_index`, and exactly the extensions and features given
/// enabled. It keeps the memory type table of the physical device.
///
/// Where the physical device lacks one of the extensions, no device is
/// created; the error names the first extension that is missing.
pub fn build(
    physical: &PhysicalDeviceDescriptor,
    queue_family_index: u32,
    required_extensions: &Vec<Vec<u8>>,
    required_features: FlagSet,
) -> (r: Result<ActiveDevice, DeviceCreationError>)
    ensures
        r.is_ok() == physical.supports_extensions(required_extensions@),
        match r {
            Ok(device) => {
                &&& device.queue_family_index == queue_family_index
                &&& device.queue_count == QUEUE_COUNT
                &&& name_seq(device.enabled_extensions@) == name_seq(required_extensions@)
                &&& device.enabled_features == required_features
                &&& device.memory_types@ == physical.memory_types@
            },
            Err(e) => {
                &&& e.unsupported_extension < required_extensions@.len()
                &&& e.unsupported_extension == first_unsupported(
                    physical.extensions@,
                    required_extensions@,
                )
                &&& !physical.extension_set().contains(
                    required_extensions@[e.unsupported_extension as int]@,
                )
            },
        },
{
    match find_unsupported(&physical.extensions, required_extensions) {
        Some(k) => {
            proof {
                crate::device::lemma_first_unsupported(physical.extensions@, required_extensions@);
            }
            Err(DeviceCreationError { unsupported_extension: k })
        },
        None => Ok(
            ActiveDevice {
                queue_family_index,
                queue_count: QUEUE_COUNT,
                enabled_extensions: copy_names(required_extensions),
                enabled_features: required_features,
                memory_types: copy_memory_types(&physical.memory_types),
            },
        ),
    }
}

} // verus!
