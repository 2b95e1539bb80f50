//! What the events of a write make of a job, one after the other.
use vstd::prelude::*;

use super::state::{active, state_after, JobState};
use crate::app::write_state::WriteEvent;

verus! {

/// What a job tells behind an event is what the event told: where the write stands, why it
/// failed, and whether the volume has to be looked at. The order is kept.
pub proof fn job_tells_what_the_event_told(
    before: JobState,
    event: WriteEvent,
    timestamp: String,
    after: JobState,
)
    requires
        state_after(before, event, timestamp, after),
    ensures
        after.spec == before.spec,
        after.runner_pid == before.runner_pid,
        after.updated_at == timestamp,
        after.progress.current_item == event.current_file,
        after.progress.items_completed == event.files_completed,
        after.progress.items_total == event.files_total,
        after.progress.bytes_completed == event.bytes_written,
        after.progress.bytes_total == event.bytes_total,
        after.progress.partition == event.partition,
        after.progress.logical_block == event.logical_block,
        event.failure matches Some(f) ==> after.error == Some(f.message)
            && after.requires_diagnosis == f.requires_diagnosis,
        event.failure is None ==> after.error == before.error && after.requires_diagnosis
            == before.requires_diagnosis,
        event.telemetry matches Some(sample) ==> after.progress.channel_rates@
            == sample.channel_rates@ && after.progress.worst_channel_rate == sample.worst_rate,
        event.performance matches Some(sample) ==> after.progress.tape_bytes_per_second == Some(
            sample.tape_bytes_per_second,
        ) && after.progress.source_bytes_per_second == Some(sample.source_bytes_per_second)
            && after.progress.buffer_used_bytes == Some(sample.buffer_used_bytes)
            && after.progress.buffer_capacity_bytes == Some(sample.buffer_capacity_bytes)
            && after.progress.reader_waiting == sample.reader_waiting
            && after.progress.writer_waiting == sample.writer_waiting,
        event.performance is None ==> after.progress.tape_bytes_per_second
            == before.progress.tape_bytes_per_second && after.progress.throughput_history@
            == before.progress.throughput_history@,
{
}

/// A job is over behind an event exactly where the event told a failure, and it was
/// cancelled exactly where the failure says so; else it stands where the write stands.
pub proof fn job_ends_with_a_failure(
    before: JobState,
    event: WriteEvent,
    timestamp: String,
    after: JobState,
)
    requires
        state_after(before, event, timestamp, after),
    ensures
        !active(after.phase) <==> event.phase is Failed,
        after.phase is Cancelled <==> event.phase is Failed && (event.failure matches Some(f)
            && f.cancelled),
        !(before.phase is CancellationRequested) ==> {
            &&& after.phase is Running <==> event.phase is Preparing || event.phase is WritingData
            &&& after.phase is Verifying <==> event.phase is Verifying
        },
{
}

/// The index counts as committed once the write has come to the check behind the commit, or
/// has failed behind the commit; that is never taken back.
pub proof fn commit_is_told_in_time(
    before: JobState,
    event: WriteEvent,
    timestamp: String,
    after: JobState,
)
    requires
        state_after(before, event, timestamp, after),
    ensures
        after.completion.index_committed <==> (before.completion.index_committed
            || event.phase is Verifying || (event.failure matches Some(f)
            && f.commit_state is Committed)),
        after.completion.verification is Passed && !(before.completion.verification is Passed)
            ==> event.phase is Completed && before.spec.read_back_verify,
        event.phase is Completed && event.failure is None && before.spec.read_back_verify
            ==> after.completion.verification is Passed,
        (event.failure matches Some(f) && f.commit_state is Committed)
            && before.spec.read_back_verify ==> after.completion.verification is Failed,
        after.completion.eject == before.completion.eject,
        after.completion.generation == before.completion.generation,
{
}

/// The states of a job, each behind one event more.
pub open spec fn follow(
    states: Seq<JobState>,
    events: Seq<WriteEvent>,
    times: Seq<String>,
) -> bool {
    &&& states.len() == events.len() + 1
    &&& times.len() == events.len()
    &&& forall|i: int|
        0 <= i < events.len() ==> state_after(
            #[trigger] states[i],
            events[i],
            times[i],
            states[i + 1],
        )
}

/// Over all events of a write, the revisions count the events, the order stays the same, a
/// committed index stays committed, and the worst rate of a channel never falls.
pub proof fn job_history_only_grows(
    states: Seq<JobState>,
    events: Seq<WriteEvent>,
    times: Seq<String>,
    i: int,
    j: int,
)
    requires
        follow(states, events, times),
        0 <= i <= j < states.len(),
        states[i].revision + (j - i) <= u64::MAX,
    ensures
        states[j].revision == states[i].revision + (j - i),
        states[j].spec == states[i].spec,
        states[i].completion.index_committed ==> states[j].completion.index_committed,
        states[i].progress.session_worst_channel_rate matches Some(worst) ==> (
        states[j].progress.session_worst_channel_rate matches Some(later) && worst <= later),
        (exists|k: int| i <= k < j && (#[trigger] events[k]).phase is Verifying)
            ==> states[j].completion.index_committed,
    decreases j - i,
{
    if i < j {
        job_history_only_grows(states, events, times, i, j - 1);
        assert(state_after(states[j - 1], events[j - 1], times[j - 1], states[j]));
        if exists|k: int| i <= k < j && (#[trigger] events[k]).phase is Verifying {
            let k = choose|k: int| i <= k < j && (#[trigger] events[k]).phase is Verifying;
            if k < j - 1 {
                assert(events[k].phase is Verifying);
            }
        }
    }
}

} // verus!
