//! The resources of one allocation attempt: the buffer, what the device
//! requires of its memory, and the memory that was allocated for it.

use crate::flags::{bit_is_set, FlagSet};
use vstd::prelude::*;

verus! {

/// How a buffer is shared between queue families.
#[derive(Clone, Copy, Debug, PartialEq, Eq, Structural)]
pub enum SharingMode {
    /// One queue family at a time owns the buffer.
    Exclusive,
    /// Several queue families may use the buffer at once.
    Concurrent,
}

/// What the device requires of the memory that backs a resource.
#[derive(Clone, Copy, Debug, PartialEq, Eq, Structural)]
pub struct MemoryRequirements {
    /// The number of bytes that must be allocated. It may exceed the size of
    /// the resource, because of alignment.
    pub size: u64,
    /// The alignment of the memory, in bytes.
    pub alignment: u64,
    /// The memory types that may back the resource, one bit per type index.
    pub memory_type_bits: u32,
}

/// A request for a buffer.
#[derive(Clone, Copy, Debug, PartialEq, Eq, Structural)]
pub struct BufferRequest {
    /// The size of the buffer, in bytes.
    pub size: u64,
    /// What the buffer will be used for.
    pub usage: FlagSet,
    /// How the buffer is shared.
    pub sharing_mode: SharingMode,
}

/// A buffer that the device has created.
#[derive(Clone, Copy, Debug, PartialEq, Eq, Structural)]
pub struct BufferResource {
    /// The size of the buffer, in bytes.
    pub size: u64,
    /// What the buffer is used for.
    pub usage: FlagSet,
    /// How the buffer is shared.
    pub sharing_mode: SharingMode,
    /// What the device requires of the buffer's memory.
    pub requirements: MemoryRequirements,
}

/// Device memory that has been allocated.
#[derive(Clone, Copy, Debug, PartialEq, Eq, Structural)]
pub struct MemoryAllocation {
    /// The number of bytes allocated.
    pub size: u64,
    /// The index of the memory type that the memory is of.
    pub memory_type_index: u32,
}

/// The offset at which memory is bound to a buffer.
pub const BIND_OFFSET: u64 = 0;

/// The memory may be bound to the buffer: it is large enough, and of a type
/// that the buffer can use.
pub open spec fn bindable(buffer: BufferResource, allocation: MemoryAllocation) -> bool {
    &&& allocation.size >= buffer.requirements.size
    &&& bit_is_set(buffer.requirements.memory_type_bits as u64, allocation.memory_type_index as int)
}

impl BufferRequest {
    /// The request for a uniform buffer of `size` bytes that one queue family
    /// owns.
    pub fn uniform(size: u64) -> (r: BufferRequest)
        ensures
            r == uniform_request(size),
    {
        BufferRequest {
            size,
            usage: FlagSet::from_bits(crate::flags::BUFFER_USAGE_UNIFORM),
            sharing_mode: SharingMode::Exclusive,
        }
    }

    /// The buffer that the device has created for this request.
    pub fn created(&self, requirements: MemoryRequirements) -> (r: BufferResource)
        ensures
            r == created_buffer(*self, requirements),
    {
        BufferResource {
            size: self.size,
            usage: self.usage,
            sharing_mode: self.sharing_mode,
            requirements,
        }
    }
}

/// The request for a uniform buffer of `size` bytes that one queue family
/// owns.
pub open spec fn uniform_request(size: u64) -> BufferRequest {
    BufferRequest { size, usage: FlagSet { bits: 0x10 }, sharing_mode: SharingMode::Exclusive }
}

/// The buffer that a request leads to, given what the device requires of its
/// memory.
pub open spec fn created_buffer(request: BufferRequest, requirements: MemoryRequirements) -> BufferResource {
    BufferResource {
        size: request.size,
        usage: request.usage,
        sharing_mode: request.sharing_mode,
        requirements,
    }
}

impl BufferResource {
    /// Whether `allocation` may be bound to this buffer.
    pub fn accepts(&self, allocation: &MemoryAllocation) -> (r: bool)
        ensures
            r == bindable(*self, *allocation),
    {
        allocation.size >= self.requirements.size && FlagSet::from_bits(
            self.requirements.memory_type_bits as u64,
        ).has(allocation.memory_type_index as u64)
    }
}

} // verus!
