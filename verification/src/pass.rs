//! One pass of timed allocations, as a state machine.
//!
//! A pass attempts the scheduled sizes in order. For each size it has a
//! buffer created, finds the memory type for it, has the memory allocated
//! and timed, and has the memory bound to the buffer. The work on the device
//! is done by the caller: the pass says what to do next as an [`Action`], and
//! the caller reports what came of it as an [`Event`].
//!
//! An allocation that fails is expected: the size is skipped, the buffer is
//! discarded and the pass goes on with the next size. Every other failure
//! ends the pass.

use crate::device::{copy_memory_types, ActiveDevice, MemoryType};
use crate::flags::FlagSet;
use crate::outcome::{live_resources, AllocationOutcome, Latency, SkipReason};
use crate::resolver::{
    lemma_resolution_some, resolution, resolve, NoCompatibleMemoryTypeError,
};
use crate::resources::{
    bindable, created_buffer, uniform_request, BufferRequest, BufferResource, MemoryAllocation,
    MemoryRequirements, SharingMode, BIND_OFFSET,
};
use crate::schedule::{
    lemma_scheduled_size_bounded, lemma_scheduled_sizes_increase, scheduled_size, scheduled_sizes,
    size_at, SIZE_COUNT,
};
use vstd::arithmetic::power2::pow2;
use vstd::prelude::*;

verus! {

/// Why a pass ended before its last size.
#[derive(Clone, Copy, Debug, PartialEq, Eq, Structural)]
pub enum PassError {
    /// The device could not create a buffer.
    BufferCreation,
    /// No memory type that the buffer can use has the properties asked for.
    NoCompatibleMemoryType(NoCompatibleMemoryTypeError),
    /// The device could not bind the memory to the buffer.
    BindFailure,
    /// The caller reported something that the pass was not waiting for.
    UnexpectedEvent,
}

/// What the caller reports to a pass.
#[derive(Clone, Copy, Debug, PartialEq, Eq, Structural)]
pub enum Event {
    /// The last action is done and left nothing to report.
    Continue,
    /// The buffer was created. The device requires this of its memory.
    BufferCreated(MemoryRequirements),
    /// The buffer could not be created.
    BufferFailed,
    /// The memory was allocated. The timer showed this latency.
    Allocated(Latency),
    /// The memory could not be allocated.
    AllocationFailed,
    /// The memory was bound to the buffer.
    Bound,
    /// The memory could not be bound to the buffer.
    BindFailed,
}

/// What a pass asks the caller to do next.
#[derive(Clone, Copy, Debug, PartialEq, Eq, Structural)]
pub enum Action {
    /// Start the timer, then create this buffer. Answer with
    /// `BufferCreated` or `BufferFailed`.
    CreateBuffer(BufferRequest),
    /// Allocate `size` bytes of memory of this type and, if that succeeds,
    /// stop the timer. Answer with `Allocated` or `AllocationFailed`.
    Allocate { size: u64, memory_type_index: u32 },
    /// Bind the memory to the buffer at `offset`. Answer with `Bound` or
    /// `BindFailed`.
    Bind { offset: u64 },
    /// Keep the buffer and its memory until the pass is over, and report the
    /// size and the latency. Answer with `Continue`.
    Retain { size: u64, latency: Latency },
    /// Release the buffer, and report that the size was skipped. Answer with
    /// `Continue`.
    Discard,
    /// The pass is over: every size was attempted.
    Finish,
    /// The pass is over: it failed.
    Abort(PassError),
}

/// Where a pass stands.
#[derive(Clone, Copy, Debug, PartialEq, Eq, Structural)]
pub enum Phase {
    /// Between two attempts.
    Ready,
    /// Waiting for the buffer.
    AwaitingBuffer { request: BufferRequest },
    /// Waiting for the memory.
    AwaitingAllocation { buffer: BufferResource, memory_type_index: u32 },
    /// Waiting for the memory to be bound.
    AwaitingBind { buffer: BufferResource, allocation: MemoryAllocation, latency: Latency },
    /// Every size was attempted.
    Finished,
    /// The pass failed.
    Failed { error: PassError },
}

/// The state of a pass.
pub struct PassModel {
    /// The memory type table of the device.
    pub memory_types: Seq<MemoryType>,
    /// The memory properties that the pass asks for.
    pub required: FlagSet,
    /// Where the pass stands.
    pub phase: Phase,
    /// The sizes for which a buffer was requested, in order.
    pub attempted: Seq<u64>,
    /// What the attempts that are over came to, in order.
    pub outcomes: Seq<AllocationOutcome>,
}

/// The state of a pass before its first attempt.
pub open spec fn initial(memory_types: Seq<MemoryType>, required: FlagSet) -> PassModel {
    PassModel {
        memory_types,
        required,
        phase: Phase::Ready,
        attempted: Seq::empty(),
        outcomes: Seq::empty(),
    }
}

/// The state of a pass that has failed with `error`.
pub open spec fn failed(s: PassModel, error: PassError) -> (PassModel, Action) {
    (PassModel { phase: Phase::Failed { error }, ..s }, Action::Abort(error))
}

/// The state that follows `s` when the caller reports `event`, and what the
/// caller is to do next.
pub open spec fn transition(s: PassModel, event: Event) -> (PassModel, Action) {
    match s.phase {
        Phase::Finished => (s, Action::Finish),
        Phase::Failed { error } => (s, Action::Abort(error)),
        Phase::Ready => match event {
            Event::Continue => if s.outcomes.len() >= SIZE_COUNT {
                (PassModel { phase: Phase::Finished, ..s }, Action::Finish)
            } else {
                let request = uniform_request(scheduled_size(s.outcomes.len()) as u64);
                (
                    PassModel {
                        phase: Phase::AwaitingBuffer { request },
                        attempted: s.attempted.push(request.size),
                        ..s
                    },
                    Action::CreateBuffer(request),
                )
            },
            _ => failed(s, PassError::UnexpectedEvent),
        },
        Phase::AwaitingBuffer { request } => match event {
            Event::BufferCreated(requirements) => match resolution(
                s.memory_types,
                requirements.memory_type_bits,
                s.required,
            ) {
                Some(memory_type_index) => (
                    PassModel {
                        phase: Phase::AwaitingAllocation {
                            buffer: created_buffer(request, requirements),
                            memory_type_index,
                        },
                        ..s
                    },
                    Action::Allocate { size: requirements.size, memory_type_index },
                ),
                None => failed(
                    s,
                    PassError::NoCompatibleMemoryType(
                        NoCompatibleMemoryTypeError {
                            compatible_types: requirements.memory_type_bits,
                            required: s.required,
                        },
                    ),
                ),
            },
            Event::BufferFailed => failed(s, PassError::BufferCreation),
            _ => failed(s, PassError::UnexpectedEvent),
        },
        Phase::AwaitingAllocation { buffer, memory_type_index } => match event {
            Event::Allocated(latency) => (
                PassModel {
                    phase: Phase::AwaitingBind {
                        buffer,
                        allocation: MemoryAllocation {
                            size: buffer.requirements.size,
                            memory_type_index,
                        },
                        latency,
                    },
                    ..s
                },
                Action::Bind { offset: 0 },
            ),
            Event::AllocationFailed => (
                PassModel {
                    phase: Phase::Ready,
                    outcomes: s.outcomes.push(
                        AllocationOutcome::Skipped { reason: SkipReason::OutOfMemory },
                    ),
                    ..s
                },
                Action::Discard,
            ),
            _ => failed(s, PassError::UnexpectedEvent),
        },
        Phase::AwaitingBind { buffer, allocation, latency } => match event {
            Event::Bound => (
                PassModel {
                    phase: Phase::Ready,
                    outcomes: s.outcomes.push(
                        AllocationOutcome::Success { latency, buffer, allocation },
                    ),
                    ..s
                },
                Action::Retain { size: buffer.size, latency },
            ),
            Event::BindFailed => failed(s, PassError::BindFailure),
            _ => failed(s, PassError::UnexpectedEvent),
        },
    }
}

/// The state that a pass is in after the caller has reported `events`, one
/// after the other, starting in state `s`.
pub open spec fn run(s: PassModel, events: Seq<Event>) -> PassModel
    decreases events.len(),
{
    if events.len() == 0 {
        s
    } else {
        transition(run(s, events.drop_last()), events.last()).0
    }
}

impl PassModel {
    /// The buffer is the one that attempt `i` asks for, and `index` is the
    /// memory type that the pass finds for it.
    pub open spec fn attempt_resources(self, i: int, buffer: BufferResource, index: u32) -> bool {
        &&& buffer.size == scheduled_size(i as nat)
        &&& buffer.usage == (FlagSet { bits: 0x10 })
        &&& buffer.sharing_mode == SharingMode::Exclusive
        &&& resolution(self.memory_types, buffer.requirements.memory_type_bits, self.required)
            == Some(index)
    }

    /// Outcome `i` is one that attempt `i` can come to.
    pub open spec fn outcome_valid(self, i: int) -> bool {
        match self.outcomes[i] {
            AllocationOutcome::Success { latency, buffer, allocation } => {
                &&& self.attempt_resources(i, buffer, allocation.memory_type_index)
                &&& allocation.size == buffer.requirements.size
            },
            AllocationOutcome::Skipped { reason } => true,
        }
    }

    /// What holds of every state that a pass can reach.
    pub open spec fn wf(self) -> bool {
        &&& self.attempted.len() <= SIZE_COUNT
        &&& forall|i: int|
            0 <= i < self.attempted.len() ==> #[trigger] self.attempted[i] == scheduled_size(i as nat)
        &&& forall|i: int| 0 <= i < self.outcomes.len() ==> #[trigger] self.outcome_valid(i)
        &&& match self.phase {
            Phase::Ready => self.outcomes.len() == self.attempted.len(),
            Phase::AwaitingBuffer { request } => {
                &&& self.attempted.len() == self.outcomes.len() + 1
                &&& request == uniform_request(self.attempted.last())
            },
            Phase::AwaitingAllocation { buffer, memory_type_index } => {
                &&& self.attempted.len() == self.outcomes.len() + 1
                &&& self.attempt_resources(self.outcomes.len() as int, buffer, memory_type_index)
            },
            Phase::AwaitingBind { buffer, allocation, latency } => {
                &&& self.attempted.len() == self.outcomes.len() + 1
                &&& self.attempt_resources(
                    self.outcomes.len() as int,
                    buffer,
                    allocation.memory_type_index,
                )
                &&& allocation.size == buffer.requirements.size
            },
            Phase::Finished => self.outcomes.len() == self.attempted.len() == SIZE_COUNT,
            Phase::Failed { error } => self.outcomes.len() <= self.attempted.len()
                <= self.outcomes.len() + 1,
        }
    }

    /// Whether the pass is over.
    pub open spec fn done(self) -> bool {
        self.phase is Finished || self.phase is Failed
    }
}

/// How far a pass has come: four steps to each attempt, and at most
/// forty-four in all.
pub open spec fn progress(s: PassModel) -> int {
    4 * s.outcomes.len() + match s.phase {
        Phase::Ready => 0int,
        Phase::AwaitingBuffer { .. } => 1,
        Phase::AwaitingAllocation { .. } => 2,
        Phase::AwaitingBind { .. } => 3,
        Phase::Finished => 0,
        Phase::Failed { .. } => 0,
    }
}

/// A pass always advances: every step either ends the pass or brings it
/// further, and it cannot come further than forty-four steps. So a pass is
/// over after forty-five steps at most, whatever the device does, and no
/// size is ever attempted twice.
pub proof fn lemma_every_step_advances(s: PassModel, event: Event)
    requires
        s.wf(),
        !s.done(),
    ensures
        0 <= progress(s) <= 44,
        transition(s, event).0.done() || progress(s) < progress(transition(s, event).0) <= 44,
{
}

/// A pass starts in a state that is well formed.
pub proof fn lemma_initial_wf(memory_types: Seq<MemoryType>, required: FlagSet)
    ensures
        initial(memory_types, required).wf(),
{
}

/// Every step leads from a well-formed state to a well-formed state, keeps
/// the device and the request, and keeps the outcomes and sizes that were
/// there, adding at most one of each.
pub proof fn lemma_transition_wf(s: PassModel, event: Event)
    requires
        s.wf(),
    ensures
        transition(s, event).0.wf(),
        transition(s, event).0.memory_types == s.memory_types,
        transition(s, event).0.required == s.required,
        s.outcomes.is_prefix_of(transition(s, event).0.outcomes),
        transition(s, event).0.outcomes.len() <= s.outcomes.len() + 1,
        s.attempted.is_prefix_of(transition(s, event).0.attempted),
        transition(s, event).0.attempted.len() <= s.attempted.len() + 1,
{
    let t = transition(s, event).0;
    assert(s.outcomes.is_prefix_of(t.outcomes)) by {
        if t.outcomes != s.outcomes {
            assert(t.outcomes.len() == s.outcomes.len() + 1);
            assert(t.outcomes.take(s.outcomes.len() as int) =~= s.outcomes);
        }
    }
    assert(s.attempted.is_prefix_of(t.attempted)) by {
        if t.attempted != s.attempted {
            assert(t.attempted.take(s.attempted.len() as int) =~= s.attempted);
        }
    }
    assert forall|i: int| 0 <= i < t.outcomes.len() implies #[trigger] t.outcome_valid(i) by {
        if i < s.outcomes.len() {
            assert(s.outcome_valid(i));
            assert(t.outcomes[i] == s.outcomes[i]);
        }
    }
    assert forall|i: int| 0 <= i < t.attempted.len() implies #[trigger] t.attempted[i]
        == scheduled_size(i as nat) by {
        if i < s.attempted.len() {
            assert(t.attempted[i] == s.attempted[i]);
        } else {
            lemma_scheduled_size_bounded(i as nat);
        }
    }
    if s.phase is Ready && event is Continue && s.outcomes.len() < SIZE_COUNT {
        lemma_scheduled_size_bounded(s.outcomes.len());
    }
}

/// However a pass is driven, it stays well formed, on the same device and
/// with the same request, and whatever was attempted and recorded before
/// stays as it was: later steps only add to it.
pub proof fn lemma_run_wf(s: PassModel, events: Seq<Event>)
    requires
        s.wf(),
    ensures
        run(s, events).wf(),
        run(s, events).memory_types == s.memory_types,
        run(s, events).required == s.required,
        s.outcomes.is_prefix_of(run(s, events).outcomes),
        s.attempted.is_prefix_of(run(s, events).attempted),
    decreases events.len(),
{
    if events.len() > 0 {
        let before = run(s, events.drop_last());
        lemma_run_wf(s, events.drop_last());
        lemma_transition_wf(before, events.last());
        let after = run(s, events);
        assert(s.outcomes.is_prefix_of(after.outcomes)) by {
            assert(after.outcomes.take(s.outcomes.len() as int) =~= before.outcomes.take(
                s.outcomes.len() as int,
            ));
        }
        assert(s.attempted.is_prefix_of(after.attempted)) by {
            assert(after.attempted.take(s.attempted.len() as int) =~= before.attempted.take(
                s.attempted.len() as int,
            ));
        }
    }
}

/// In every run of a pass, whatever the caller reports, the sizes attempted
/// are the first sizes of the schedule, in its order: attempt `i` is for
/// `16 MiB * 2^i`, there are at most eleven attempts, and each size is larger
/// than those before it.
pub proof fn lemma_attempts_follow_schedule(
    memory_types: Seq<MemoryType>,
    required: FlagSet,
    events: Seq<Event>,
)
    ensures
        ({
            let attempted = run(initial(memory_types, required), events).attempted;
            &&& attempted.len() <= SIZE_COUNT
            &&& attempted == scheduled_sizes().take(attempted.len() as int)
            &&& forall|i: int|
                0 <= i < attempted.len() ==> #[trigger] attempted[i] == 16777216 * pow2(i as nat)
            &&& forall|i: int, j: int|
                0 <= i < j < attempted.len() ==> #[trigger] attempted[i] < #[trigger] attempted[j]
            &&& run(initial(memory_types, required), events).phase is Finished ==> attempted
                == scheduled_sizes()
        }),
{
    let s = run(initial(memory_types, required), events);
    lemma_run_wf(initial(memory_types, required), events);
    let attempted = s.attempted;
    assert forall|i: int| 0 <= i < attempted.len() implies #[trigger] attempted[i]
        == scheduled_sizes()[i] by {
        lemma_scheduled_size_bounded(i as nat);
    }
    assert(attempted =~= scheduled_sizes().take(attempted.len() as int));
    if s.phase is Finished {
        assert(scheduled_sizes().take(11) =~= scheduled_sizes());
    }
    assert forall|i: int, j: int| 0 <= i < j < attempted.len() implies #[trigger] attempted[i]
        < #[trigger] attempted[j] by {
        lemma_scheduled_sizes_increase(i as nat, j as nat);
    }
}

/// A step records an outcome only when an allocation has failed or a bind
/// has succeeded. It records a skip exactly when the caller reports that the
/// allocation failed, and a success exactly when the caller reports that the
/// memory was bound.
pub proof fn lemma_outcome_follows_event(s: PassModel, event: Event)
    requires
        s.wf(),
        transition(s, event).0.outcomes != s.outcomes,
    ensures
        transition(s, event).0.outcomes.len() == s.outcomes.len() + 1,
        transition(s, event).0.outcomes.drop_last() == s.outcomes,
        transition(s, event).0.outcomes.last() is Skipped <==> event is AllocationFailed,
        transition(s, event).0.outcomes.last() is Success <==> event is Bound,
        event is AllocationFailed ==> s.phase is AwaitingAllocation && transition(s, event).1
            is Discard,
        event is Bound ==> s.phase is AwaitingBind && transition(s, event).1 is Retain,
{
    let t = transition(s, event).0;
    assert(t.outcomes.drop_last() =~= s.outcomes);
}

/// A skip leaks nothing: after an attempt that was skipped, the buffers and
/// allocations that are alive are those that were alive before the attempt,
/// and the caller has been told to release the buffer of the attempt.
pub proof fn lemma_skip_keeps_live_resources(s: PassModel, event: Event)
    requires
        s.wf(),
        transition(s, event).0.outcomes.len() == s.outcomes.len() + 1,
        transition(s, event).0.outcomes.last() is Skipped,
    ensures
        live_resources(transition(s, event).0.outcomes) == live_resources(s.outcomes),
        transition(s, event).1 is Discard,
        transition(s, event).0.phase is Ready,
{
    lemma_outcome_follows_event(s, event);
}

/// The buffers and allocations that are alive change in one way only: a
/// success adds its buffer and its allocation. Nothing is released while the
/// pass runs.
pub proof fn lemma_live_resources_grow(s: PassModel, event: Event)
    requires
        s.wf(),
    ensures
        live_resources(s.outcomes).is_prefix_of(live_resources(transition(s, event).0.outcomes)),
        (s.phase is AwaitingBind && event is Bound) ==> live_resources(
            transition(s, event).0.outcomes,
        ) == live_resources(s.outcomes).push(
            (s.phase->AwaitingBind_buffer, s.phase->AwaitingBind_allocation),
        ),
        !(s.phase is AwaitingBind && event is Bound) ==> live_resources(
            transition(s, event).0.outcomes,
        ) == live_resources(s.outcomes),
{
    let t = transition(s, event).0;
    if t.outcomes != s.outcomes {
        lemma_outcome_follows_event(s, event);
    }
    let a = live_resources(s.outcomes);
    let b = live_resources(t.outcomes);
    assert(b.take(a.len() as int) =~= a);
}

/// Every success holds a buffer of the scheduled size, with memory that may
/// be bound to it: as large as the buffer requires, and of a type that the
/// buffer can use and that has the properties asked for.
pub proof fn lemma_successes_are_bindable(s: PassModel, i: int)
    requires
        s.wf(),
        0 <= i < s.outcomes.len(),
        s.outcomes[i] is Success,
    ensures
        s.outcomes[i]->buffer.size == scheduled_size(i as nat),
        bindable(s.outcomes[i]->buffer, s.outcomes[i]->allocation),
        s.outcomes[i]->allocation.memory_type_index < s.memory_types.len(),
        s.memory_types[s.outcomes[i]->allocation.memory_type_index as int].property_flags.includes(
            s.required,
        ),
{
    assert(s.outcome_valid(i));
    lemma_resolution_some(
        s.memory_types,
        s.outcomes[i]->buffer.requirements.memory_type_bits,
        s.required,
        s.outcomes[i]->allocation.memory_type_index,
    );
}

/// A failed allocation never stands in the way of the sizes before it or
/// after it. Every size before the one that an outcome belongs to was
/// attempted, and what those attempts came to is on record. After a skip
/// the pass goes on: it asks for a buffer of the next size of the schedule,
/// or finishes where the skipped size was the last.
pub proof fn lemma_pass_goes_on_after_skip(s: PassModel)
    requires
        s.wf(),
        s.phase is AwaitingAllocation,
    ensures
        ({
            let skipped = transition(s, Event::AllocationFailed).0;
            let next = transition(skipped, Event::Continue);
            &&& skipped.outcomes == s.outcomes.push(
                AllocationOutcome::Skipped { reason: SkipReason::OutOfMemory },
            )
            &&& skipped.attempted == s.attempted
            &&& skipped.attempted.len() == skipped.outcomes.len()
            &&& next.0.outcomes == skipped.outcomes
            &&& skipped.outcomes.len() < SIZE_COUNT ==> next.1 == Action::CreateBuffer(
                uniform_request(scheduled_size(skipped.outcomes.len()) as u64),
            )
            &&& skipped.outcomes.len() == SIZE_COUNT ==> next.1 == Action::Finish
        }),
{
}

/// A pass of timed allocations on one device, for one set of memory
/// properties.
pub struct Pass {
    memory_types: Vec<MemoryType>,
    required: FlagSet,
    phase: Phase,
    attempted: Vec<u64>,
    outcomes: Vec<AllocationOutcome>,
}

impl View for Pass {
    type V = PassModel;

    closed spec fn view(&self) -> PassModel {
        PassModel {
            memory_types: self.memory_types@,
            required: self.required,
            phase: self.phase,
            attempted: self.attempted@,
            outcomes: self.outcomes@,
        }
    }
}

impl Pass {
    #[verifier::type_invariant]
    spec fn well_formed(self) -> bool {
        self@.wf()
    }

    /// A pass on `device` that asks for memory with the properties
    /// `required`. Nothing has been attempted yet.
    pub fn new(device: &ActiveDevice, required: FlagSet) -> (r: Pass)
        ensures
            r@ == initial(device.memory_types@, required),
            r@.wf(),
    {
        Pass {
            memory_types: copy_memory_types(&device.memory_types),
            required,
            phase: Phase::Ready,
            attempted: Vec::new(),
            outcomes: Vec::new(),
        }
    }

    /// Takes what the caller reports, and gives the pass in its next state
    /// together with what the caller is to do next.
    pub fn step(self, event: Event) -> (r: (Pass, Action))
        ensures
            (r.0@, r.1) == transition(self@, event),
            r.0@.wf(),
    {
        proof {
            use_type_invariant(&self);
            lemma_transition_wf(self@, event);
        }
        let ghost before = self@;
        let Pass { memory_types, required, phase, mut attempted, mut outcomes } = self;
        match phase {
            Phase::Finished => (
                Pass { memory_types, required, phase, attempted, outcomes },
                Action::Finish,
            ),
            Phase::Failed { error } => (
                Pass { memory_types, required, phase, attempted, outcomes },
                Action::Abort(error),
            ),
            Phase::Ready => match event {
                Event::Continue => match size_at(outcomes.len()) {
                    None => (
                        Pass { memory_types, required, phase: Phase::Finished, attempted, outcomes },
                        Action::Finish,
                    ),
                    Some(size) => {
                        let request = BufferRequest::uniform(size);
                        attempted.push(size);
                        (
                            Pass {
                                memory_types,
                                required,
                                phase: Phase::AwaitingBuffer { request },
                                attempted,
                                outcomes,
                            },
                            Action::CreateBuffer(request),
                        )
                    },
                },
                _ => Self::fail(
                    memory_types,
                    required,
                    attempted,
                    outcomes,
                    PassError::UnexpectedEvent,
                    Ghost(before),
                ),
            },
            Phase::AwaitingBuffer { request } => match event {
                Event::BufferCreated(requirements) => match resolve(
                    &memory_types,
                    requirements.memory_type_bits,
                    required,
                ) {
                    Ok(memory_type_index) => (
                        Pass {
                            memory_types,
                            required,
                            phase: Phase::AwaitingAllocation {
                                buffer: request.created(requirements),
                                memory_type_index,
                            },
                            attempted,
                            outcomes,
                        },
                        Action::Allocate { size: requirements.size, memory_type_index },
                    ),
                    Err(e) => Self::fail(
                        memory_types,
                        required,
                        attempted,
                        outcomes,
                        PassError::NoCompatibleMemoryType(e),
                        Ghost(before),
                    ),
                },
                Event::BufferFailed => Self::fail(
                    memory_types,
                    required,
                    attempted,
                    outcomes,
                    PassError::BufferCreation,
                    Ghost(before),
                ),
                _ => Self::fail(
                    memory_types,
                    required,
                    attempted,
                    outcomes,
                    PassError::UnexpectedEvent,
                    Ghost(before),
                ),
            },
            Phase::AwaitingAllocation { buffer, memory_type_index } => match event {
                Event::Allocated(latency) => (
                    Pass {
                        memory_types,
                        required,
                        phase: Phase::AwaitingBind {
                            buffer,
                            allocation: MemoryAllocation {
                                size: buffer.requirements.size,
                                memory_type_index,
                            },
                            latency,
                        },
                        attempted,
                        outcomes,
                    },
                    Action::Bind { offset: BIND_OFFSET },
                ),
                Event::AllocationFailed => {
                    outcomes.push(AllocationOutcome::Skipped { reason: SkipReason::OutOfMemory });
                    (
                        Pass { memory_types, required, phase: Phase::Ready, attempted, outcomes },
                        Action::Discard,
                    )
                },
                _ => Self::fail(
                    memory_types,
                    required,
                    attempted,
                    outcomes,
                    PassError::UnexpectedEvent,
                    Ghost(before),
                ),
            },
            Phase::AwaitingBind { buffer, allocation, latency } => match event {
                Event::Bound => {
                    outcomes.push(AllocationOutcome::Success { latency, buffer, allocation });
                    (
                        Pass { memory_types, required, phase: Phase::Ready, attempted, outcomes },
                        Action::Retain { size: buffer.size, latency },
                    )
                },
                Event::BindFailed => Self::fail(
                    memory_types,
                    required,
                    attempted,
                    outcomes,
                    PassError::BindFailure,
                    Ghost(before),
                ),
                _ => Self::fail(
                    memory_types,
                    required,
                    attempted,
                    outcomes,
                    PassError::UnexpectedEvent,
                    Ghost(before),
                ),
            },
        }
    }

    /// The pass with the parts given, failed with `error`.
    fn fail(
        memory_types: Vec<MemoryType>,
        required: FlagSet,
        attempted: Vec<u64>,
        outcomes: Vec<AllocationOutcome>,
        error: PassError,
        Ghost(before): Ghost<PassModel>,
    ) -> (r: (Pass, Action))
        requires
            before.memory_types == memory_types@,
            before.required == required,
            before.attempted == attempted@,
            before.outcomes == outcomes@,
            failed(before, error).0.wf(),
        ensures
            (r.0@, r.1) == failed(before, error),
    {
        (
            Pass { memory_types, required, phase: Phase::Failed { error }, attempted, outcomes },
            Action::Abort(error),
        )
    }

    /// Where the pass stands.
    pub fn phase(&self) -> (r: Phase)
        ensures
            r == self@.phase,
            self@.wf(),
    {
        proof {
            use_type_invariant(self);
        }
        self.phase
    }

    /// Whether the pass is over.
    pub fn is_done(&self) -> (r: bool)
        ensures
            r == self@.done(),
    {
        match self.phase {
            Phase::Finished => true,
            Phase::Failed { .. } => true,
            _ => false,
        }
    }

    /// The memory properties that the pass asks for.
    pub fn required(&self) -> (r: FlagSet)
        ensures
            r == self@.required,
    {
        self.required
    }

    /// The sizes for which a buffer was requested so far, in order.
    pub fn attempted(&self) -> (r: &Vec<u64>)
        ensures
            r@ == self@.attempted,
    {
        &self.attempted
    }

    /// What the attempts that are over came to, in order.
    pub fn outcomes(&self) -> (r: &Vec<AllocationOutcome>)
        ensures
            r@ == self@.outcomes,
    {
        &self.outcomes
    }

    /// Ends the pass and hands out the sizes that it attempted and what the
    /// attempts came to.
    pub fn into_parts(self) -> (r: (Vec<u64>, Vec<AllocationOutcome>))
        ensures
            r.0@ == self@.attempted,
            r.1@ == self@.outcomes,
    {
        (self.attempted, self.outcomes)
    }
}

} // verus!
