use alloc_latency::device::{ActiveDevice, MemoryType};
use alloc_latency::flags::{
    FlagSet, BUFFER_USAGE_UNIFORM, MEMORY_DEVICE_LOCAL, MEMORY_HOST_COHERENT, MEMORY_HOST_VISIBLE,
};
use alloc_latency::outcome::{live, AllocationOutcome, Latency, SkipReason};
use alloc_latency::pass::{Action, Event, Pass, PassError, Phase};
use alloc_latency::resolver::NoCompatibleMemoryTypeError;
use alloc_latency::resources::{
    BufferRequest, BufferResource, MemoryAllocation, MemoryRequirements, SharingMode, BIND_OFFSET,
};
use alloc_latency::schedule::size_sequence;

const MIB: u64 = 1 << 20;
const GIB: u64 = 1 << 30;

/// A device for tests: it answers the actions of a pass as a real device
/// would, and counts what it holds.
struct MockDevice {
    memory_type_bits: u32,
    /// Allocations of this many bytes or more fail.
    allocation_limit: Option<u64>,
    /// Binds of buffers of this size fail.
    bind_fails_at: Option<u64>,
    /// Buffers of this size cannot be created.
    buffer_fails_at: Option<u64>,
    latency_nanos: u128,
    pending_buffer: Option<u64>,
    pending_allocation: Option<u64>,
    live_buffers: Vec<u64>,
    live_allocations: Vec<u64>,
    requested: Vec<u64>,
    lines: Vec<String>,
}

impl MockDevice {
    fn new(memory_type_bits: u32) -> MockDevice {
        MockDevice {
            memory_type_bits,
            allocation_limit: None,
            bind_fails_at: None,
            buffer_fails_at: None,
            latency_nanos: 1_500,
            pending_buffer: None,
            pending_allocation: None,
            live_buffers: Vec::new(),
            live_allocations: Vec::new(),
            requested: Vec::new(),
            lines: Vec::new(),
        }
    }

    fn perform(&mut self, action: Action) -> Event {
        match action {
            Action::CreateBuffer(request) => {
                self.requested.push(request.size);
                if self.buffer_fails_at == Some(request.size) {
                    return Event::BufferFailed;
                }
                self.pending_buffer = Some(request.size);
                Event::BufferCreated(MemoryRequirements {
                    size: request.size,
                    alignment: 256,
                    memory_type_bits: self.memory_type_bits,
                })
            }
            Action::Allocate { size, .. } => match self.allocation_limit {
                Some(limit) if size >= limit => Event::AllocationFailed,
                _ => {
                    self.pending_allocation = Some(size);
                    Event::Allocated(Latency::from_nanos(self.latency_nanos))
                }
            },
            Action::Bind { offset } => {
                assert_eq!(offset, 0);
                if self.bind_fails_at == self.pending_buffer {
                    Event::BindFailed
                } else {
                    Event::Bound
                }
            }
            Action::Retain { size, latency } => {
                self.live_buffers.push(self.pending_buffer.take().unwrap());
                self.live_allocations.push(self.pending_allocation.take().unwrap());
                self.lines.push(alloc_latency::report::allocation_line(size, latency));
                Event::Continue
            }
            Action::Discard => {
                self.pending_buffer = None;
                self.lines.push(alloc_latency::report::skip_line());
                Event::Continue
            }
            Action::Finish | Action::Abort(_) => unreachable!(),
        }
    }
}

fn host_and_device_memory() -> ActiveDevice {
    ActiveDevice {
        queue_family_index: 0,
        queue_count: 1,
        enabled_extensions: Vec::new(),
        enabled_features: FlagSet::empty(),
        memory_types: vec![
            MemoryType { property_flags: FlagSet::from_bits(MEMORY_DEVICE_LOCAL), heap_index: 0 },
            MemoryType {
                property_flags: FlagSet::from_bits(MEMORY_HOST_VISIBLE | MEMORY_HOST_COHERENT),
                heap_index: 1,
            },
        ],
    }
}

fn host_memory_only() -> ActiveDevice {
    let mut device = host_and_device_memory();
    device.memory_types.remove(0);
    device
}

/// Drives a pass to its end on a mock device.
fn drive(device: &ActiveDevice, flags: FlagSet, mock: &mut MockDevice) -> (Pass, Action) {
    let mut pass = Pass::new(device, flags);
    let mut event = Event::Continue;
    for _ in 0..100 {
        let (next, action) = pass.step(event);
        pass = next;
        match action {
            Action::Finish | Action::Abort(_) => return (pass, action),
            other => event = mock.perform(other),
        }
    }
    panic!("the pass did not end");
}

fn requirements(size: u64, memory_type_bits: u32) -> MemoryRequirements {
    MemoryRequirements { size, alignment: 64, memory_type_bits }
}

#[test]
fn new_pass_is_ready_and_empty() {
    let pass = Pass::new(&host_and_device_memory(), FlagSet::from_bits(MEMORY_HOST_VISIBLE));
    assert_eq!(pass.phase(), Phase::Ready);
    assert!(!pass.is_done());
    assert_eq!(pass.required(), FlagSet::from_bits(MEMORY_HOST_VISIBLE));
    assert!(pass.attempted().is_empty());
    assert!(pass.outcomes().is_empty());
}

#[test]
fn first_step_asks_for_a_uniform_buffer_of_sixteen_mebibytes() {
    let pass = Pass::new(&host_and_device_memory(), FlagSet::from_bits(MEMORY_HOST_VISIBLE));
    let (pass, action) = pass.step(Event::Continue);
    let request = BufferRequest {
        size: 16 * MIB,
        usage: FlagSet::from_bits(BUFFER_USAGE_UNIFORM),
        sharing_mode: SharingMode::Exclusive,
    };
    assert_eq!(action, Action::CreateBuffer(request));
    assert_eq!(request, BufferRequest::uniform(16 * MIB));
    assert_eq!(pass.phase(), Phase::AwaitingBuffer { request });
    assert_eq!(pass.attempted(), &vec![16 * MIB]);
    assert!(pass.outcomes().is_empty());
}

#[test]
fn successful_attempt_goes_through_allocate_bind_retain() {
    let pass = Pass::new(&host_and_device_memory(), FlagSet::from_bits(MEMORY_HOST_VISIBLE));
    let (pass, _) = pass.step(Event::Continue);
    let req = requirements(16 * MIB + 4096, 0b11);
    let (pass, action) = pass.step(Event::BufferCreated(req));
    assert_eq!(action, Action::Allocate { size: 16 * MIB + 4096, memory_type_index: 1 });
    let latency = Latency::from_nanos(2_000_000_123);
    let (pass, action) = pass.step(Event::Allocated(latency));
    assert_eq!(action, Action::Bind { offset: 0 });
    assert_eq!(BIND_OFFSET, 0);
    assert!(pass.outcomes().is_empty());
    let (pass, action) = pass.step(Event::Bound);
    assert_eq!(action, Action::Retain { size: 16 * MIB, latency });
    assert_eq!(pass.phase(), Phase::Ready);
    let buffer = BufferResource {
        size: 16 * MIB,
        usage: FlagSet::from_bits(BUFFER_USAGE_UNIFORM),
        sharing_mode: SharingMode::Exclusive,
        requirements: req,
    };
    let allocation = MemoryAllocation { size: 16 * MIB + 4096, memory_type_index: 1 };
    assert_eq!(pass.outcomes(), &vec![AllocationOutcome::Success { latency, buffer, allocation }]);
    assert!(buffer.accepts(&allocation));
    let (pass, action) = pass.step(Event::Continue);
    assert_eq!(action, Action::CreateBuffer(BufferRequest::uniform(32 * MIB)));
    assert_eq!(pass.attempted(), &vec![16 * MIB, 32 * MIB]);
}

#[test]
fn failed_allocation_is_skipped_and_the_pass_goes_on() {
    let pass = Pass::new(&host_and_device_memory(), FlagSet::from_bits(MEMORY_DEVICE_LOCAL));
    let (pass, _) = pass.step(Event::Continue);
    let (pass, action) = pass.step(Event::BufferCreated(requirements(16 * MIB, 0b01)));
    assert_eq!(action, Action::Allocate { size: 16 * MIB, memory_type_index: 0 });
    let (pass, action) = pass.step(Event::AllocationFailed);
    assert_eq!(action, Action::Discard);
    assert_eq!(pass.phase(), Phase::Ready);
    assert!(!pass.is_done());
    assert_eq!(
        pass.outcomes(),
        &vec![AllocationOutcome::Skipped { reason: SkipReason::OutOfMemory }]
    );
    assert!(live(pass.outcomes()).is_empty());
    let (_, action) = pass.step(Event::Continue);
    assert_eq!(action, Action::CreateBuffer(BufferRequest::uniform(32 * MIB)));
}

#[test]
fn unresolvable_memory_type_ends_the_pass() {
    let pass = Pass::new(&host_memory_only(), FlagSet::from_bits(MEMORY_DEVICE_LOCAL));
    let (pass, _) = pass.step(Event::Continue);
    let (pass, action) = pass.step(Event::BufferCreated(requirements(16 * MIB, 0b1)));
    let error = PassError::NoCompatibleMemoryType(NoCompatibleMemoryTypeError {
        compatible_types: 0b1,
        required: FlagSet::from_bits(MEMORY_DEVICE_LOCAL),
    });
    assert_eq!(action, Action::Abort(error));
    assert_eq!(pass.phase(), Phase::Failed { error });
    assert!(pass.is_done());
    assert!(pass.outcomes().is_empty());
    let (pass, action) = pass.step(Event::Continue);
    assert_eq!(action, Action::Abort(error));
    assert_eq!(pass.phase(), Phase::Failed { error });
}

#[test]
fn buffer_failure_ends_the_pass() {
    let pass = Pass::new(&host_and_device_memory(), FlagSet::from_bits(MEMORY_HOST_VISIBLE));
    let (pass, _) = pass.step(Event::Continue);
    let (pass, action) = pass.step(Event::BufferFailed);
    assert_eq!(action, Action::Abort(PassError::BufferCreation));
    assert_eq!(pass.phase(), Phase::Failed { error: PassError::BufferCreation });
    assert!(pass.outcomes().is_empty());
}

#[test]
fn bind_failure_ends_the_pass() {
    let pass = Pass::new(&host_and_device_memory(), FlagSet::from_bits(MEMORY_HOST_VISIBLE));
    let (pass, _) = pass.step(Event::Continue);
    let (pass, _) = pass.step(Event::BufferCreated(requirements(16 * MIB, 0b10)));
    let (pass, _) = pass.step(Event::Allocated(Latency::from_nanos(7)));
    let (pass, action) = pass.step(Event::BindFailed);
    assert_eq!(action, Action::Abort(PassError::BindFailure));
    assert!(pass.is_done());
    assert!(pass.outcomes().is_empty());
}

#[test]
fn unexpected_events_end_the_pass() {
    let flags = FlagSet::from_bits(MEMORY_HOST_VISIBLE);
    let fresh = || Pass::new(&host_and_device_memory(), flags);
    let unexpected = Action::Abort(PassError::UnexpectedEvent);

    assert_eq!(fresh().step(Event::Bound).1, unexpected);
    assert_eq!(fresh().step(Event::AllocationFailed).1, unexpected);
    assert_eq!(fresh().step(Event::BufferFailed).1, unexpected);

    let (pass, _) = fresh().step(Event::Continue);
    assert_eq!(pass.step(Event::Continue).1, unexpected);
    let (pass, _) = fresh().step(Event::Continue);
    assert_eq!(pass.step(Event::Allocated(Latency::from_nanos(1))).1, unexpected);

    let (pass, _) = fresh().step(Event::Continue);
    let (pass, _) = pass.step(Event::BufferCreated(requirements(16 * MIB, 0b10)));
    assert_eq!(pass.step(Event::Bound).1, unexpected);

    let (pass, _) = fresh().step(Event::Continue);
    let (pass, _) = pass.step(Event::BufferCreated(requirements(16 * MIB, 0b10)));
    let (pass, _) = pass.step(Event::Allocated(Latency::from_nanos(1)));
    let (pass, action) = pass.step(Event::Bound);
    assert!(matches!(action, Action::Retain { .. }));
    // Binding a second time is never asked for, and is refused.
    let (pass, action) = pass.step(Event::Bound);
    assert_eq!(action, unexpected);
    assert_eq!(pass.outcomes().len(), 1);
}

#[test]
fn attempted_sizes_follow_the_schedule() {
    let mut mock = MockDevice::new(0b11);
    mock.allocation_limit = Some(128 * MIB);
    let (pass, action) =
        drive(&host_and_device_memory(), FlagSet::from_bits(MEMORY_HOST_VISIBLE), &mut mock);
    assert_eq!(action, Action::Finish);
    assert_eq!(pass.phase(), Phase::Finished);
    assert_eq!(pass.attempted(), &size_sequence());
    assert_eq!(mock.requested, size_sequence());
    for i in 1..mock.requested.len() {
        assert!(mock.requested[i - 1] < mock.requested[i]);
    }
    for (i, size) in mock.requested.iter().enumerate() {
        assert_eq!(*size, (16 * MIB) << i);
    }
}

#[test]
fn scenario_unlimited_host_visible_memory() {
    let mut mock = MockDevice::new(0b11);
    let (pass, action) =
        drive(&host_and_device_memory(), FlagSet::from_bits(MEMORY_HOST_VISIBLE), &mut mock);
    assert_eq!(action, Action::Finish);
    let (attempted, outcomes) = pass.into_parts();
    assert_eq!(attempted, size_sequence());
    assert_eq!(outcomes.len(), 11);
    for (i, outcome) in outcomes.iter().enumerate() {
        match outcome {
            AllocationOutcome::Success { latency, buffer, allocation } => {
                assert!(latency.is_positive());
                assert!(latency.nanos > 0);
                assert_eq!(buffer.size, (16 * MIB) << i);
                assert_eq!(allocation.memory_type_index, 1);
                assert!(buffer.accepts(allocation));
            }
            other => panic!("attempt {i}: unexpected {other:?}"),
        }
    }
    assert_eq!(mock.live_buffers, size_sequence());
    assert_eq!(mock.live_allocations, size_sequence());
    assert_eq!(mock.lines.len(), 11);
    assert_eq!(mock.lines[0], "buffer size: 16777216B; allocation time: 0.000001500s");
}

#[test]
fn scenario_allocations_fail_from_one_gibibyte() {
    let mut mock = MockDevice::new(0b11);
    mock.allocation_limit = Some(GIB);
    let (pass, action) =
        drive(&host_and_device_memory(), FlagSet::from_bits(MEMORY_HOST_VISIBLE), &mut mock);
    assert_eq!(action, Action::Finish);
    let outcomes = pass.outcomes().clone();
    assert_eq!(outcomes.len(), 11);
    for i in 0..6 {
        assert!(outcomes[i].is_success(), "attempt {i}");
        assert!(!outcomes[i].is_skipped(), "attempt {i}");
    }
    for i in 6..11 {
        assert_eq!(outcomes[i], AllocationOutcome::Skipped { reason: SkipReason::OutOfMemory });
        assert!(outcomes[i].is_skipped());
    }
    let kept: Vec<u64> = vec![16 * MIB, 32 * MIB, 64 * MIB, 128 * MIB, 256 * MIB, 512 * MIB];
    assert_eq!(mock.live_buffers, kept);
    assert_eq!(mock.live_allocations, kept);
    assert_eq!(mock.pending_buffer, None);
    assert_eq!(live(&outcomes).len(), 6);
    assert_eq!(mock.requested, size_sequence());
    assert_eq!(mock.lines[6], "Error creating buffer memory (probably oom).");
}

#[test]
fn scenario_no_device_local_memory_type() {
    let mut mock = MockDevice::new(0b1);
    let (pass, action) =
        drive(&host_memory_only(), FlagSet::from_bits(MEMORY_DEVICE_LOCAL), &mut mock);
    let error = PassError::NoCompatibleMemoryType(NoCompatibleMemoryTypeError {
        compatible_types: 0b1,
        required: FlagSet::from_bits(MEMORY_DEVICE_LOCAL),
    });
    assert_eq!(action, Action::Abort(error));
    let (attempted, outcomes) = pass.into_parts();
    assert_eq!(attempted, vec![16 * MIB]);
    assert!(outcomes.is_empty());
    assert!(mock.live_buffers.is_empty());
    assert!(mock.lines.is_empty());
}

#[test]
fn threshold_divides_successes_from_skips() {
    for k in 0..=11usize {
        let threshold = if k < 11 { (16 * MIB) << k } else { u64::MAX };
        let mut mock = MockDevice::new(0b10);
        mock.allocation_limit = Some(threshold);
        let (pass, action) =
            drive(&host_and_device_memory(), FlagSet::from_bits(MEMORY_HOST_VISIBLE), &mut mock);
        assert_eq!(action, Action::Finish);
        let sizes = size_sequence();
        for (i, outcome) in pass.outcomes().iter().enumerate() {
            if sizes[i] < threshold {
                assert!(outcome.is_success(), "threshold {threshold}, size {}", sizes[i]);
            } else {
                assert!(outcome.is_skipped(), "threshold {threshold}, size {}", sizes[i]);
            }
        }
        assert_eq!(mock.live_buffers.len(), k);
        assert_eq!(mock.live_allocations.len(), k);
    }
}

#[test]
fn skip_leaves_live_resources_unchanged() {
    let flags = FlagSet::from_bits(MEMORY_HOST_VISIBLE);
    let mut pass = Pass::new(&host_and_device_memory(), flags);
    // One success first.
    for event in [
        Event::Continue,
        Event::BufferCreated(requirements(16 * MIB, 0b10)),
        Event::Allocated(Latency::from_nanos(10)),
        Event::Bound,
    ] {
        pass = pass.step(event).0;
    }
    let before = live(pass.outcomes());
    assert_eq!(before.len(), 1);
    // Then a skip.
    for event in [
        Event::Continue,
        Event::BufferCreated(requirements(32 * MIB, 0b10)),
        Event::AllocationFailed,
    ] {
        pass = pass.step(event).0;
    }
    assert_eq!(pass.outcomes().len(), 2);
    assert_eq!(live(pass.outcomes()), before);
    // And another success after it.
    for event in [
        Event::Continue,
        Event::BufferCreated(requirements(64 * MIB, 0b10)),
        Event::Allocated(Latency::from_nanos(10)),
        Event::Bound,
    ] {
        pass = pass.step(event).0;
    }
    let after = live(pass.outcomes());
    assert_eq!(after.len(), 2);
    assert_eq!(after[0], before[0]);
    assert_eq!(after[1].0.size, 64 * MIB);
}

#[test]
fn later_failure_keeps_earlier_outcomes() {
    let mut mock = MockDevice::new(0b11);
    mock.allocation_limit = Some(64 * MIB);
    mock.bind_fails_at = None;
    mock.buffer_fails_at = Some(256 * MIB);
    let (pass, action) =
        drive(&host_and_device_memory(), FlagSet::from_bits(MEMORY_HOST_VISIBLE), &mut mock);
    assert_eq!(action, Action::Abort(PassError::BufferCreation));
    let (attempted, outcomes) = pass.into_parts();
    assert_eq!(attempted, vec![16 * MIB, 32 * MIB, 64 * MIB, 128 * MIB, 256 * MIB]);
    assert_eq!(outcomes.len(), 4);
    assert!(outcomes[0].is_success());
    assert!(outcomes[1].is_success());
    assert!(outcomes[2].is_skipped());
    assert!(outcomes[3].is_skipped());
}

#[test]
fn bind_failure_in_the_middle_ends_the_pass() {
    let mut mock = MockDevice::new(0b11);
    mock.bind_fails_at = Some(64 * MIB);
    let (pass, action) =
        drive(&host_and_device_memory(), FlagSet::from_bits(MEMORY_DEVICE_LOCAL), &mut mock);
    assert_eq!(action, Action::Abort(PassError::BindFailure));
    assert_eq!(pass.outcomes().len(), 2);
    assert_eq!(pass.attempted(), &vec![16 * MIB, 32 * MIB, 64 * MIB]);
}

#[test]
fn two_passes_on_one_device_are_independent() {
    let device = host_and_device_memory();
    let mut host_mock = MockDevice::new(0b11);
    host_mock.allocation_limit = Some(GIB);
    let mut device_mock = MockDevice::new(0b11);
    let (host, _) = drive(&device, FlagSet::from_bits(MEMORY_HOST_VISIBLE), &mut host_mock);
    let (local, _) = drive(&device, FlagSet::from_bits(MEMORY_DEVICE_LOCAL), &mut device_mock);
    assert_eq!(live(host.outcomes()).len(), 6);
    assert_eq!(live(local.outcomes()).len(), 11);
    for (_, allocation) in live(host.outcomes()) {
        assert_eq!(allocation.memory_type_index, 1);
    }
    for (_, allocation) in live(local.outcomes()) {
        assert_eq!(allocation.memory_type_index, 0);
    }
}

#[test]
fn finished_pass_stays_finished() {
    let mut mock = MockDevice::new(0b11);
    let (pass, _) =
        drive(&host_and_device_memory(), FlagSet::from_bits(MEMORY_HOST_VISIBLE), &mut mock);
    let (pass, action) = pass.step(Event::Bound);
    assert_eq!(action, Action::Finish);
    assert_eq!(pass.phase(), Phase::Finished);
    assert_eq!(pass.outcomes().len(), 11);
}

#[test]
fn allocation_asks_for_the_required_size() {
    let pass = Pass::new(&host_and_device_memory(), FlagSet::from_bits(MEMORY_HOST_VISIBLE));
    let (pass, _) = pass.step(Event::Continue);
    let (_, action) = pass.step(Event::BufferCreated(requirements(16 * MIB + 65_536, 0b10)));
    assert_eq!(action, Action::Allocate { size: 16 * MIB + 65_536, memory_type_index: 1 });
}

#[test]
fn full_pass_takes_forty_five_steps() {
    let mut mock = MockDevice::new(0b11);
    let mut pass = Pass::new(&host_and_device_memory(), FlagSet::from_bits(MEMORY_HOST_VISIBLE));
    let mut event = Event::Continue;
    let mut steps = 0;
    loop {
        let (next, action) = pass.step(event);
        pass = next;
        steps += 1;
        match action {
            Action::Finish => break,
            Action::Abort(error) => panic!("unexpected {error:?}"),
            other => event = mock.perform(other),
        }
    }
    assert_eq!(steps, 45);
    assert_eq!(pass.outcomes().len(), 11);
}

#[test]
fn arbitrary_events_never_break_the_schedule() {
    let sizes = size_sequence();
    let mut seed: u64 = 0x9e37_79b9_7f4a_7c15;
    for _ in 0..2_000 {
        let mut pass = Pass::new(&host_and_device_memory(), FlagSet::from_bits(MEMORY_HOST_VISIBLE));
        for _ in 0..60 {
            seed = seed.wrapping_mul(6_364_136_223_846_793_005).wrapping_add(1_442_695_040_888_963_407);
            let event = match (seed >> 33) % 12 {
                0 | 1 | 2 => Event::Continue,
                3 | 4 => Event::BufferCreated(requirements(seed >> 40, (seed >> 36) as u32 & 0b111)),
                5 => Event::BufferFailed,
                6 | 7 => Event::Allocated(Latency::from_nanos((seed >> 20) as u128)),
                8 => Event::AllocationFailed,
                9 | 10 => Event::Bound,
                _ => Event::BindFailed,
            };
            let before = pass.outcomes().clone();
            let (next, _) = pass.step(event);
            pass = next;
            let attempted = pass.attempted();
            assert!(attempted.len() <= 11);
            assert_eq!(attempted[..], sizes[..attempted.len()]);
            assert!(pass.outcomes().len() <= attempted.len());
            assert!(attempted.len() <= pass.outcomes().len() + 1);
            assert_eq!(pass.outcomes()[..before.len()], before[..]);
            for (i, outcome) in pass.outcomes().iter().enumerate() {
                if let AllocationOutcome::Success { buffer, allocation, .. } = outcome {
                    assert_eq!(buffer.size, sizes[i]);
                    assert!(buffer.accepts(allocation));
                }
            }
        }
    }
}
