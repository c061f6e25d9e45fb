//! A pass run against a device that is given as data: for each size of the
//! schedule, how far the device lets the attempt go.
//!
//! The run drives the same state machine that a run on a real device drives,
//! and answers each action from the script.

use crate::device::{ActiveDevice, MemoryType};
use crate::flags::FlagSet;
use crate::outcome::{AllocationOutcome, Latency, SkipReason};
use crate::pass::{progress, Action, Event, Pass, PassError, PassModel, Phase};
use crate::resolver::{resolution, NoCompatibleMemoryTypeError};
use crate::resources::{created_buffer, uniform_request, MemoryAllocation, MemoryRequirements};
use crate::schedule::{scheduled_size, scheduled_sizes, SIZE_COUNT};
use vstd::prelude::*;

verus! {

/// What a device does with one attempt.
#[derive(Clone, Copy, Debug, PartialEq, Eq, Structural)]
pub enum DeviceResponse {
    /// It fails to create the buffer.
    BufferFailure,
    /// It creates the buffer and fails to allocate the memory.
    AllocationFailure { requirements: MemoryRequirements },
    /// It creates the buffer, allocates the memory and fails to bind it.
    BindFailure { requirements: MemoryRequirements, latency: Latency },
    /// It creates the buffer, allocates the memory and binds it.
    Success { requirements: MemoryRequirements, latency: Latency },
}

/// What a run against a scripted device came to.
#[derive(Debug)]
pub struct PassReport {
    /// The sizes for which a buffer was requested, in order.
    pub attempted: Vec<u64>,
    /// What the attempts that were completed came to, in order.
    pub outcomes: Vec<AllocationOutcome>,
    /// Why the pass ended early, where it did.
    pub error: Option<PassError>,
}

/// What attempt `i` comes to on a device that answers it with `response`:
/// an outcome, or the failure that ends the pass.
pub open spec fn attempt(
    memory_types: Seq<MemoryType>,
    required: FlagSet,
    i: nat,
    response: DeviceResponse,
) -> Result<AllocationOutcome, PassError> {
    match response {
        DeviceResponse::BufferFailure => Err(PassError::BufferCreation),
        DeviceResponse::AllocationFailure { requirements } => match resolution(
            memory_types,
            requirements.memory_type_bits,
            required,
        ) {
            Some(_) => Ok(AllocationOutcome::Skipped { reason: SkipReason::OutOfMemory }),
            None => Err(unresolved(requirements, required)),
        },
        DeviceResponse::BindFailure { requirements, latency } => match resolution(
            memory_types,
            requirements.memory_type_bits,
            required,
        ) {
            Some(_) => Err(PassError::BindFailure),
            None => Err(unresolved(requirements, required)),
        },
        DeviceResponse::Success { requirements, latency } => match resolution(
            memory_types,
            requirements.memory_type_bits,
            required,
        ) {
            Some(memory_type_index) => Ok(
                AllocationOutcome::Success {
                    latency,
                    buffer: created_buffer(uniform_request(scheduled_size(i) as u64), requirements),
                    allocation: MemoryAllocation { size: requirements.size, memory_type_index },
                },
            ),
            None => Err(unresolved(requirements, required)),
        },
    }
}

/// The failure of a pass that finds no memory type for a buffer.
pub open spec fn unresolved(requirements: MemoryRequirements, required: FlagSet) -> PassError {
    PassError::NoCompatibleMemoryType(
        NoCompatibleMemoryTypeError { compatible_types: requirements.memory_type_bits, required },
    )
}

/// `outcomes` and `error` are what a pass comes to on a device that answers
/// attempt `i` with `script[i]`: every attempt before the first that fails
/// for good has its outcome, in order; the pass ends with that failure, or
/// without one after the last size.
pub open spec fn pass_result(
    memory_types: Seq<MemoryType>,
    required: FlagSet,
    script: Seq<DeviceResponse>,
    outcomes: Seq<AllocationOutcome>,
    error: Option<PassError>,
) -> bool {
    &&& outcomes.len() <= SIZE_COUNT
    &&& forall|i: int|
        0 <= i < outcomes.len() ==> attempt(memory_types, required, i as nat, #[trigger] script[i])
            == Ok::<AllocationOutcome, PassError>(outcomes[i])
    &&& match error {
        None => outcomes.len() == SIZE_COUNT,
        Some(e) => outcomes.len() < SIZE_COUNT && attempt(
            memory_types,
            required,
            outcomes.len(),
            script[outcomes.len() as int],
        ) == Err::<AllocationOutcome, PassError>(e),
    }
}

/// A pass on a scripted device has one result.
pub proof fn lemma_pass_result_unique(
    memory_types: Seq<MemoryType>,
    required: FlagSet,
    script: Seq<DeviceResponse>,
    outcomes: Seq<AllocationOutcome>,
    error: Option<PassError>,
    other_outcomes: Seq<AllocationOutcome>,
    other_error: Option<PassError>,
)
    requires
        pass_result(memory_types, required, script, outcomes, error),
        pass_result(memory_types, required, script, other_outcomes, other_error),
    ensures
        outcomes == other_outcomes,
        error == other_error,
{
    let n = outcomes.len() as int;
    let m = other_outcomes.len() as int;
    if n < m {
        assert(attempt(memory_types, required, n as nat, script[n]) is Ok);
    }
    if m < n {
        assert(attempt(memory_types, required, m as nat, script[m]) is Ok);
    }
    assert forall|i: int| 0 <= i < n implies outcomes[i] == other_outcomes[i] by {
        assert(attempt(memory_types, required, i as nat, script[i]) == Ok::<
            AllocationOutcome,
            PassError,
        >(outcomes[i]));
    }
    assert(outcomes =~= other_outcomes);
}

/// An attempt is skipped exactly when the device failed to allocate its
/// memory, and succeeds exactly when the device went all the way. An
/// allocation that fails never ends the pass: the failure that ends a pass
/// is a buffer that was not created, a memory type that was not found, or a
/// bind that failed.
pub proof fn lemma_outcomes_follow_device(
    memory_types: Seq<MemoryType>,
    required: FlagSet,
    script: Seq<DeviceResponse>,
    outcomes: Seq<AllocationOutcome>,
    error: Option<PassError>,
)
    requires
        pass_result(memory_types, required, script, outcomes, error),
    ensures
        forall|i: int|
            0 <= i < outcomes.len() ==> (outcomes[i] is Skipped <==> #[trigger] script[i]
                is AllocationFailure),
        forall|i: int|
            0 <= i < outcomes.len() ==> (outcomes[i] is Success <==> #[trigger] script[i]
                is Success),
        error matches Some(e) ==> (e is BufferCreation || e is NoCompatibleMemoryType || e
            is BindFailure),
        error matches Some(e) ==> (script[outcomes.len() as int] is AllocationFailure ==> e
            is NoCompatibleMemoryType),
{
    assert forall|i: int| 0 <= i < outcomes.len() implies ((outcomes[i] is Skipped
        <==> #[trigger] script[i] is AllocationFailure) && (outcomes[i] is Success <==> script[i]
        is Success)) by {
        assert(attempt(memory_types, required, i as nat, script[i]) == Ok::<
            AllocationOutcome,
            PassError,
        >(outcomes[i]));
    }
}

/// On a device whose allocations fail from `threshold` bytes on and succeed
/// below, no size below the threshold is skipped and no size from the
/// threshold on succeeds.
pub proof fn lemma_threshold_divides_outcomes(
    memory_types: Seq<MemoryType>,
    required: FlagSet,
    script: Seq<DeviceResponse>,
    outcomes: Seq<AllocationOutcome>,
    error: Option<PassError>,
    threshold: nat,
)
    requires
        pass_result(memory_types, required, script, outcomes, error),
        forall|i: int|
            0 <= i < SIZE_COUNT ==> (#[trigger] script[i] is AllocationFailure <==> scheduled_size(
                i as nat,
            ) >= threshold),
    ensures
        forall|i: int|
            0 <= i < outcomes.len() && scheduled_size(i as nat) < threshold ==> !(
            #[trigger] outcomes[i] is Skipped),
        forall|i: int|
            0 <= i < outcomes.len() && scheduled_size(i as nat) >= threshold ==> !(
            #[trigger] outcomes[i] is Success),
{
    lemma_outcomes_follow_device(memory_types, required, script, outcomes, error);
    assert forall|i: int|
        0 <= i < outcomes.len() && scheduled_size(i as nat) < threshold implies !(
    #[trigger] outcomes[i] is Skipped) by {
        assert(!(script[i] is AllocationFailure));
    }
    assert forall|i: int|
        0 <= i < outcomes.len() && scheduled_size(i as nat) >= threshold implies !(
    #[trigger] outcomes[i] is Success) by {
        assert(script[i] is AllocationFailure);
    }
}

/// What a device does with one size has no bearing on the sizes before it:
/// on two devices that treat the first `k` sizes alike, every outcome that
/// the one pass has for those sizes the other has too.
pub proof fn lemma_earlier_outcomes_stand(
    memory_types: Seq<MemoryType>,
    required: FlagSet,
    script: Seq<DeviceResponse>,
    outcomes: Seq<AllocationOutcome>,
    error: Option<PassError>,
    other_script: Seq<DeviceResponse>,
    other_outcomes: Seq<AllocationOutcome>,
    other_error: Option<PassError>,
    k: int,
)
    requires
        pass_result(memory_types, required, script, outcomes, error),
        pass_result(memory_types, required, other_script, other_outcomes, other_error),
        0 <= k <= SIZE_COUNT,
        forall|i: int| 0 <= i < k ==> script[i] == other_script[i],
    ensures
        forall|i: int|
            0 <= i < k && i < outcomes.len() ==> i < other_outcomes.len() && other_outcomes[i]
                == #[trigger] outcomes[i],
{
    let m = other_outcomes.len() as int;
    assert forall|i: int| 0 <= i < k && i < outcomes.len() implies i < other_outcomes.len()
        && other_outcomes[i] == #[trigger] outcomes[i] by {
        if m <= i {
            assert(attempt(memory_types, required, m as nat, script[m]) is Ok);
            assert(script[m] == other_script[m]);
        }
        assert(attempt(memory_types, required, i as nat, script[i]) == Ok::<
            AllocationOutcome,
            PassError,
        >(outcomes[i]));
        assert(attempt(memory_types, required, i as nat, other_script[i]) == Ok::<
            AllocationOutcome,
            PassError,
        >(other_outcomes[i]));
    }
}

/// What the device reports after `action`, on an attempt that it answers
/// with `response`.
pub open spec fn reported(response: DeviceResponse, action: Action) -> Event {
    match action {
        Action::CreateBuffer(_) => match response {
            DeviceResponse::BufferFailure => Event::BufferFailed,
            DeviceResponse::AllocationFailure { requirements } => Event::BufferCreated(requirements),
            DeviceResponse::BindFailure { requirements, .. } => Event::BufferCreated(requirements),
            DeviceResponse::Success { requirements, .. } => Event::BufferCreated(requirements),
        },
        Action::Allocate { .. } => match response {
            DeviceResponse::BindFailure { latency, .. } => Event::Allocated(latency),
            DeviceResponse::Success { latency, .. } => Event::Allocated(latency),
            _ => Event::AllocationFailed,
        },
        Action::Bind { .. } => match response {
            DeviceResponse::Success { .. } => Event::Bound,
            _ => Event::BindFailed,
        },
        _ => Event::Continue,
    }
}

/// What the device reports after `action`, on an attempt that it answers
/// with `response`.
pub fn respond(response: DeviceResponse, action: Action) -> (r: Event)
    ensures
        r == reported(response, action),
{
    match action {
        Action::CreateBuffer(_) => match response {
            DeviceResponse::BufferFailure => Event::BufferFailed,
            DeviceResponse::AllocationFailure { requirements } => Event::BufferCreated(requirements),
            DeviceResponse::BindFailure { requirements, .. } => Event::BufferCreated(requirements),
            DeviceResponse::Success { requirements, .. } => Event::BufferCreated(requirements),
        },
        Action::Allocate { .. } => match response {
            DeviceResponse::BindFailure { latency, .. } => Event::Allocated(latency),
            DeviceResponse::Success { latency, .. } => Event::Allocated(latency),
            _ => Event::AllocationFailed,
        },
        Action::Bind { .. } => match response {
            DeviceResponse::Success { .. } => Event::Bound,
            _ => Event::BindFailed,
        },
        _ => Event::Continue,
    }
}

/// The pass in state `s`, about to be told `event`, is where a run on the
/// scripted device gets to.
spec fn on_script(s: PassModel, event: Event, script: Seq<DeviceResponse>) -> bool {
    let n = s.outcomes.len() as int;
    &&& s.wf()
    &&& script.len() == SIZE_COUNT
    &&& forall|i: int|
        0 <= i < n ==> attempt(s.memory_types, s.required, i as nat, #[trigger] script[i]) == Ok::<
            AllocationOutcome,
            PassError,
        >(s.outcomes[i])
    &&& match s.phase {
        Phase::Ready => event == Event::Continue,
        Phase::AwaitingBuffer { request } => event == reported(script[n], Action::CreateBuffer(request)),
        Phase::AwaitingAllocation { buffer, memory_type_index } => {
            &&& script[n] !is BufferFailure
            &&& Event::BufferCreated(buffer.requirements) == reported(
                script[n],
                Action::CreateBuffer(uniform_request(buffer.size)),
            )
            &&& event == reported(
                script[n],
                Action::Allocate { size: buffer.requirements.size, memory_type_index },
            )
        },
        Phase::AwaitingBind { buffer, allocation, latency } => {
            &&& (script[n] is BindFailure || script[n] is Success)
            &&& Event::BufferCreated(buffer.requirements) == reported(
                script[n],
                Action::CreateBuffer(uniform_request(buffer.size)),
            )
            &&& Event::Allocated(latency) == reported(
                script[n],
                Action::Allocate { size: 0, memory_type_index: 0 },
            )
            &&& event == reported(script[n], Action::Bind { offset: 0 })
        },
        Phase::Finished => false,
        Phase::Failed { error } => false,
    }
}

/// Runs a pass on `device`, for memory with the properties `required`,
/// against a device that answers attempt `i` with `script[i]`.
///
/// The sizes are attempted in the order of the schedule. An attempt whose
/// allocation fails is skipped and the pass goes on; the first attempt that
/// fails in another way ends the pass, with the outcomes before it kept.
pub fn simulate(device: &ActiveDevice, required: FlagSet, script: &[DeviceResponse; 11]) -> (r:
    PassReport)
    ensures
        pass_result(device.memory_types@, required, script@, r.outcomes@, r.error),
        r.error.is_none() ==> r.attempted@ == scheduled_sizes(),
        r.error.is_some() ==> r.attempted@ == scheduled_sizes().take(r.outcomes@.len() as int + 1),
{
    let mut pass = Pass::new(device, required);
    let mut event = Event::Continue;
    loop
        invariant
            on_script(pass@, event, script@),
            pass@.memory_types == device.memory_types@,
            pass@.required == required,
        decreases 44 - progress(pass@),
    {
        let ghost before = pass@;
        let (next, action) = pass.step(event);
        pass = next;
        match action {
            Action::Finish => {
                let (attempted, outcomes) = pass.into_parts();
                proof {
                    lemma_attempted(before, event);
                }
                return PassReport { attempted, outcomes, error: None };
            },
            Action::Abort(error) => {
                let (attempted, outcomes) = pass.into_parts();
                proof {
                    lemma_attempted(before, event);
                }
                return PassReport { attempted, outcomes, error: Some(error) };
            },
            Action::Retain { .. } => {
                event = Event::Continue;
            },
            Action::Discard => {
                event = Event::Continue;
            },
            _ => {
                let n = pass.outcomes().len();
                event = respond(script[n], action);
            },
        }
    }
}

/// The sizes attempted in a well-formed state are the first sizes of the
/// schedule.
proof fn lemma_attempted(s: PassModel, event: Event)
    requires
        s.wf(),
    ensures
        ({
            let t = crate::pass::transition(s, event).0;
            t.attempted == scheduled_sizes().take(t.attempted.len() as int)
        }),
{
    crate::pass::lemma_transition_wf(s, event);
    let t = crate::pass::transition(s, event).0;
    assert forall|i: int| 0 <= i < t.attempted.len() implies #[trigger] t.attempted[i]
        == scheduled_sizes()[i] by {
        crate::schedule::lemma_scheduled_size_bounded(i as nat);
    }
    assert(t.attempted =~= scheduled_sizes().take(t.attempted.len() as int));
}

} // verus!
