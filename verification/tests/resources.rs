use alloc_latency::flags::{FlagSet, BUFFER_USAGE_UNIFORM};
use alloc_latency::outcome::{live, AllocationOutcome, Latency, SkipReason};
use alloc_latency::resources::{
    BufferRequest, BufferResource, MemoryAllocation, MemoryRequirements, SharingMode,
};

fn buffer(size: u64, required: u64, memory_type_bits: u32) -> BufferResource {
    BufferRequest::uniform(size).created(MemoryRequirements {
        size: required,
        alignment: 16,
        memory_type_bits,
    })
}

#[test]
fn uniform_request_is_exclusive_and_for_uniform_use() {
    let request = BufferRequest::uniform(4096);
    assert_eq!(request.size, 4096);
    assert_eq!(request.usage, FlagSet::from_bits(BUFFER_USAGE_UNIFORM));
    assert_eq!(request.sharing_mode, SharingMode::Exclusive);
}

#[test]
fn created_buffer_keeps_the_request_and_the_requirements() {
    let b = buffer(1000, 1024, 0b101);
    assert_eq!(b.size, 1000);
    assert_eq!(b.usage, FlagSet::from_bits(BUFFER_USAGE_UNIFORM));
    assert_eq!(b.sharing_mode, SharingMode::Exclusive);
    assert_eq!(b.requirements, MemoryRequirements { size: 1024, alignment: 16, memory_type_bits: 0b101 });
}

#[test]
fn buffer_accepts_memory_that_is_large_enough_and_of_a_compatible_type() {
    let b = buffer(1000, 1024, 0b101);
    assert!(b.accepts(&MemoryAllocation { size: 1024, memory_type_index: 0 }));
    assert!(b.accepts(&MemoryAllocation { size: 4096, memory_type_index: 2 }));
    assert!(!b.accepts(&MemoryAllocation { size: 1023, memory_type_index: 0 }));
    assert!(!b.accepts(&MemoryAllocation { size: 1024, memory_type_index: 1 }));
    assert!(!b.accepts(&MemoryAllocation { size: 1024, memory_type_index: 40 }));
    assert!(!b.accepts(&MemoryAllocation { size: 1024, memory_type_index: 64 }));
}

#[test]
fn live_resources_are_those_of_the_successes() {
    let first = buffer(1, 1, 1);
    let second = buffer(2, 2, 1);
    let a = MemoryAllocation { size: 1, memory_type_index: 0 };
    let b = MemoryAllocation { size: 2, memory_type_index: 0 };
    let outcomes = vec![
        AllocationOutcome::Success { latency: Latency::from_nanos(1), buffer: first, allocation: a },
        AllocationOutcome::Skipped { reason: SkipReason::OutOfMemory },
        AllocationOutcome::Success { latency: Latency::from_nanos(2), buffer: second, allocation: b },
        AllocationOutcome::Skipped { reason: SkipReason::OutOfMemory },
    ];
    assert_eq!(live(&outcomes), vec![(first, a), (second, b)]);
    assert_eq!(live(&Vec::new()), Vec::new());
}
