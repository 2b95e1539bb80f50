//! A job as a whole: what is checked before the tape is touched, what the write expects,
//! and what is told in the end.
use vstd::prelude::*;

use super::id::JobId;
use super::order::{
    mount_fault, operation_name, CompletionAction, Endpoint, JobSpec, Mounts,
    OperationKind, Resolved, WritePreflight,
};
use super::runner::{
    capacity_fault, host_endpoints, job_write_options, mounts_fault, runner_begin,
    runner_next,
    updated, RunnerActionModel, RunnerReply, RunnerStage, RunnerUpdate, WriteOutcome,
};
use super::state::JobState;
use crate::app::drives::selected_position;
use crate::app::plan::PlanState;
use crate::app::source::{SourcePlan, WritePlanExpectation};
use crate::app::write::expectation_fault;
use crate::app::write_state::{is_cancelled, stop_spec, FloatBits, WriteFailpoint};
use crate::device::TapeDrive;
use crate::tui::start::write_ordered;
use crate::tui::state::UiState;

verus! {

// ---------------------------------------------------------------------------
// What the write of a job expects
// ---------------------------------------------------------------------------

/// A plan has as many files, directories and bytes as a preflight has counted.
pub open spec fn as_counted(p: WritePreflight, files: nat, directories: nat, bytes: nat) -> bool {
    files == p.files_total && directories == p.directories_total && bytes == p.payload_bytes
}

/// The write of a job with a preflight expects as many files, directories and bytes as the
/// preflight has counted: a plan with those totals goes on, and any other is refused. A job
/// without a preflight expects nothing.
pub proof fn job_expects_what_was_counted(order: JobSpec, plan: PlanState)
    requires
        plan.files.len() <= usize::MAX,
    ensures
        match order.write_preflight {
            Some(p) => (expectation_fault(plan, job_write_options(order).expected_source) is None)
                == as_counted(
                p,
                plan.files.len(),
                plan.directories as nat,
                plan.total_bytes as nat,
            ),
            None => expectation_fault(plan, job_write_options(order).expected_source) is None,
        },
{
}

/// The write of a job with a preflight is held to the totals of the preflight, each under
/// its own name.
pub proof fn job_expectation_has_the_totals(order: JobSpec, expected: WritePlanExpectation)
    requires
        job_write_options(order).expected_source == Some(expected),
    ensures
        order.write_preflight is Some,
        as_counted(
            order.write_preflight->0,
            expected.files as nat,
            expected.directories as nat,
            expected.payload_bytes as nat,
        ),
{
}

/// A write that was confirmed in the interface goes on where the source has not changed: a
/// plan with the totals of the scan that was confirmed meets what its job expects, and one
/// with other totals does not.
pub proof fn confirmed_write_goes_on(
    s: UiState,
    id: JobId,
    now: String,
    canonical: Seq<Resolved>,
    fraction: Option<FloatBits>,
    t: UiState,
    order: JobSpec,
    plan: PlanState,
)
    requires
        write_ordered(s, id, now, canonical, fraction, t, Some(order)),
        plan.files.len() <= usize::MAX,
    ensures
        s.write.plan is Some,
        ({
            let scan: SourcePlan = s.write.plan->0;
            (expectation_fault(plan, job_write_options(order).expected_source) is None) == (
            plan.files.len() == scan.files@.len() && plan.directories == scan.directories_total
                && plan.total_bytes == scan.payload_bytes)
        }),
{
}

/// The write of a job is checked by reading back exactly where the order asks for that, can
/// be asked to stop and has not been, and stops nowhere by itself.
pub proof fn job_write_stops_only_when_asked(order: JobSpec, point: WriteFailpoint)
    ensures
        (job_write_options(order).verification is ReadBackSha256) == order.read_back_verify,
        job_write_options(order).cancellation is Some,
        !is_cancelled(job_write_options(order)),
        stop_spec(job_write_options(order), point) is None,
{
}

// ---------------------------------------------------------------------------
// Before the tape is touched
// ---------------------------------------------------------------------------

/// What is to be written has room: it fits in what the cartridge has left, and where it
/// takes more than nine tenths of that, or what is left is not known, that was confirmed.
pub proof fn only_what_fits_is_written(payload: u64, acknowledged: bool, remaining_mib: Option<u64>)
    ensures
        match remaining_mib {
            Some(mib) => if mib * 1048576 > u64::MAX {
                (capacity_fault(payload, acknowledged, remaining_mib) is None) == acknowledged
            } else {
                (capacity_fault(payload, acknowledged, remaining_mib) is None) == (payload <= mib
                    * 1048576 && (acknowledged || payload * 10 <= mib * 1048576 * 9))
            },
            None => (capacity_fault(payload, acknowledged, remaining_mib) is None) == acknowledged,
        },
{
}

/// The drive that an order means is there, and it is the one that was planned with.
pub open spec fn drive_is_there(order: JobSpec, drives: Seq<TapeDrive>) -> bool {
    selected_position(drives, Some(order.drive_selector@)) matches Ok(k) && drives[k].serial@
        == order.drive_serial@
}

/// The paths of an order on the host: what a write reads, and where a read goes.
pub open spec fn paths_on_host(order: JobSpec) -> Seq<Endpoint> {
    if order.operation is Read {
        seq![order.destination]
    } else if order.source_roots@.len() > 0 {
        order.source_roots@
    } else {
        seq![order.source]
    }
}

/// Every path of the order on the host is on the mount that it was planned on.
pub open spec fn mounts_are_there(order: JobSpec, resolved: Seq<Resolved>, mounts: Mounts) -> bool {
    &&& paths_on_host(order).len() <= resolved.len()
    &&& forall|i: int|
        0 <= i < paths_on_host(order).len() ==> mount_fault(
            #[trigger] paths_on_host(order)[i],
            resolved[i],
            mounts,
        ) is None
}

proof fn lemma_mounts(order: JobSpec, resolved: Seq<Resolved>, mounts: Mounts, n: nat)
    requires
        n <= host_endpoints(order).len(),
    ensures
        ({
            let first = host_endpoints(order).take(n as int);
            (mounts_fault(first, resolved, mounts) is None) == (n <= resolved.len() && forall|i: int|
                0 <= i < n ==> mount_fault(
                    #[trigger] host_endpoints(order)[i],
                    resolved[i],
                    mounts,
                ) is None)
        }),
    decreases n,
{
    let all = host_endpoints(order);
    if n > 0 {
        lemma_mounts(order, resolved, mounts, (n - 1) as nat);
        assert(all.take(n as int).drop_last() =~= all.take(n - 1));
        assert(all.take(n as int).last() == all[n - 1]);
    }
}

/// A run of a job once it has been told what came of its actions, one after the other.
pub open spec fn job_run(order: JobSpec, told: Seq<RunnerReply>) -> (RunnerStage, RunnerActionModel)
    decreases told.len(),
{
    if told.len() == 0 {
        runner_begin(order)
    } else {
        runner_next(order, job_run(order, told.drop_last()).0, told.last())
    }
}

/// A run has not come to its end before it was told the last of this.
pub open spec fn goes_on(order: JobSpec, told: Seq<RunnerReply>) -> bool
    decreases told.len(),
{
    told.len() == 0 || (goes_on(order, told.drop_last()) && {
        let action = job_run(order, told.drop_last()).1;
        !(action is Finished) && !(action is Failed)
    })
}

/// The device was taken, the drive is the right one, the mounts are those of the plan, and
/// what a preflight has counted still fits.
pub open spec fn was_checked(order: JobSpec, told: Seq<RunnerReply>) -> bool {
    &&& host_was_checked(order, told)
    &&& order.write_preflight matches Some(p) ==> (told.len() >= 4 && (told[3]
        matches RunnerReply::Media { remaining_capacity_mib, now } && capacity_fault(
        p.payload_bytes,
        p.warning_acknowledged,
        remaining_capacity_mib,
    ) is None))
}

/// The device was taken, the drive is the right one, and the mounts are those of the plan.
pub open spec fn host_was_checked(order: JobSpec, told: Seq<RunnerReply>) -> bool {
    &&& told.len() >= 3
    &&& told[0] is Done
    &&& told[1] matches RunnerReply::Drives(drives) && drive_is_there(order, drives@)
    &&& told[2] matches RunnerReply::Mounts { mounts, resolved } && mounts_are_there(
        order,
        resolved@,
        mounts,
    )
}

/// How many replies are there before the run is made known.
pub open spec fn checks(order: JobSpec) -> nat {
    if order.write_preflight is Some {
        4
    } else {
        3
    }
}

spec fn run_holds(order: JobSpec, told: Seq<RunnerReply>) -> bool {
    let (stage, action) = job_run(order, told);
    let n: int = checks(order) as int;
    let written = told.len() > n + 1 && told[n + 1] is Written;
    action is Failed || match stage {
        RunnerStage::Lease => told.len() == 0 && action is Lease,
        RunnerStage::Drives => told.len() == 1 && told[0] is Done && action is Discover,
        RunnerStage::Mounts => told.len() == 2 && told[0] is Done && (told[1]
            matches RunnerReply::Drives(drives) && drive_is_there(order, drives@))
            && action is ReadMounts,
        RunnerStage::Media => told.len() == 3 && host_was_checked(order, told) && order.write_preflight is Some && action is InspectMedia,
        RunnerStage::Running => told.len() == n && was_checked(order, told) && action is Running,
        RunnerStage::Write => told.len() == n + 1 && was_checked(order, told)
            && order.operation is Write && action is Write,
        RunnerStage::Written { eject } => told.len() == n + 2 && was_checked(order, told)
            && order.operation is Write && written && action is Written && eject == (
        order.completion_action is EjectAfterCommit),
        RunnerStage::Eject => told.len() == n + 3 && was_checked(order, told)
            && order.operation is Write && written && action is Eject
            && order.completion_action is EjectAfterCommit,
        RunnerStage::Output => was_checked(order, told) && order.operation is Read
            && action is OpenOutput,
        RunnerStage::Read => was_checked(order, told) && order.operation is Read
            && action is Read,
        RunnerStage::Sync { .. } => was_checked(order, told) && order.operation is Read
            && action is SyncOutput,
        RunnerStage::Last => was_checked(order, told) && (action is Finished
            || action is Ejected || action is EjectFailed || action is ReadCompleted) && (
        order.operation is Write ==> written),
    }
}

proof fn lemma_checked_so_far(order: JobSpec, told: Seq<RunnerReply>)
    requires
        told.len() > 0,
        was_checked(order, told.drop_last()),
    ensures
        was_checked(order, told),
{
    let before = told.drop_last();
    assert(before[0] == told[0] && before[1] == told[1] && before[2] == told[2]);
    if before.len() > 3 {
        assert(before[3] == told[3]);
    }
}

proof fn lemma_run(order: JobSpec, told: Seq<RunnerReply>)
    requires
        goes_on(order, told),
    ensures
        run_holds(order, told),
    decreases told.len(),
{
    if told.len() > 0 {
        let before = told.drop_last();
        lemma_run(order, before);
        let n: int = checks(order) as int;
        let (stage, action) = job_run(order, before);
        if was_checked(order, before) {
            lemma_checked_so_far(order, told);
        }
        if before.len() > n + 1 {
            assert(before[n + 1] == told[n + 1]);
        }
        match (stage, told.last()) {
            (RunnerStage::Drives, RunnerReply::Drives(drives)) => {
                assert(before[0] == told[0]);
            },
            (RunnerStage::Mounts, RunnerReply::Mounts { mounts, resolved }) => {
                assert(before[0] == told[0] && before[1] == told[1]);
                let all = host_endpoints(order);
                lemma_mounts(order, resolved@, mounts, all.len());
                assert(all.take(all.len() as int) =~= all);
                assert(all == paths_on_host(order));
            },
            (RunnerStage::Media, RunnerReply::Media { remaining_capacity_mib, now }) => {
                assert(before[0] == told[0] && before[1] == told[1] && before[2] == told[2]);
            },
            _ => {},
        }
    }
}

/// A job begins by taking the drive with the serial number of its order, for itself and for
/// its operation.
pub proof fn job_takes_its_drive(order: JobSpec)
    ensures
        job_run(order, Seq::empty()).1 == (RunnerActionModel::Lease {
            serial: order.drive_serial@,
            operation: operation_name(order.operation),
            job: order.id@,
        }),
        forall|message: String| #[trigger]
            job_run(order, seq![RunnerReply::Failed(message)]).1 == RunnerActionModel::Failed(
                message@,
            ),
{
    assert forall|message: String| #[trigger]
        job_run(order, seq![RunnerReply::Failed(message)]).1 == RunnerActionModel::Failed(
            message@,
        ) by {
        assert(seq![RunnerReply::Failed(message)].drop_last() =~= Seq::<RunnerReply>::empty());
    }
}

/// A job writes, reads or ejects only once the device is its own, the drive has the serial
/// number that was planned with, every path on the host is on the mount that it was planned
/// on, and what was counted fits in what the cartridge has left. It ejects only behind a
/// write that was carried out, and only where the order asks for that.
pub proof fn job_is_checked_first(order: JobSpec, told: Seq<RunnerReply>)
    requires
        goes_on(order, told),
        ({
            let action = job_run(order, told).1;
            action is Write || action is Read || action is Eject || action is OpenOutput
        }),
    ensures
        was_checked(order, told),
        job_run(order, told).1 is Write || job_run(order, told).1 is Eject
            ==> order.operation is Write,
        job_run(order, told).1 is Read || job_run(order, told).1 is OpenOutput
            ==> order.operation is Read,
        job_run(order, told).1 matches RunnerActionModel::Write { options } ==> options
            == job_write_options(order),
        job_run(order, told).1 is Eject ==> order.completion_action is EjectAfterCommit
            && exists|i: int| 0 <= i < told.len() && (#[trigger] told[i]) is Written,
{
    lemma_run(order, told);
    if told.len() > 0 {
        lemma_run(order, told.drop_last());
    }
}

/// A job that is carried out ends well. A write is made known with what came of it, and
/// the cartridge is then ejected exactly where the order asks for that; whether the eject
/// was done is made known too. A read opens its destination, reads, and syncs what it has
/// read before that is made known.
pub proof fn carried_out_job_ends_well(
    order: JobSpec,
    told: Seq<RunnerReply>,
    outcome: WriteOutcome,
    bytes: u64,
)
    requires
        goes_on(order, told),
        job_run(order, told).1 is Running,
    ensures
        ({
            let done = RunnerReply::Done;
            let known = told.push(done);
            let written = known.push(RunnerReply::Written(outcome));
            let read = known.push(done).push(RunnerReply::Read(bytes));
            match order.operation {
                OperationKind::Write => {
                    &&& job_run(order, known).1 == (RunnerActionModel::Write {
                        options: job_write_options(order),
                    })
                    &&& job_run(order, written).1 == RunnerActionModel::Written(outcome)
                    &&& match order.completion_action {
                        CompletionAction::KeepLoaded => job_run(order, written.push(done)).1
                            is Finished,
                        CompletionAction::EjectAfterCommit => {
                            &&& job_run(order, written.push(done)).1 is Eject
                            &&& job_run(order, written.push(done).push(done)).1 is Ejected
                            &&& job_run(order, written.push(done).push(done).push(done)).1
                                is Finished
                        },
                    }
                },
                OperationKind::Read => {
                    &&& job_run(order, known).1 is OpenOutput
                    &&& job_run(order, known.push(done)).1 is Read
                    &&& job_run(order, read).1 is SyncOutput
                    &&& job_run(order, read.push(done)).1 == RunnerActionModel::ReadCompleted(
                        bytes,
                    )
                    &&& job_run(order, read.push(done).push(done)).1 is Finished
                },
            }
        }),
{
    lemma_run(order, told);
    let done = RunnerReply::Done;
    let known = told.push(done);
    let written = known.push(RunnerReply::Written(outcome));
    let read = known.push(done).push(RunnerReply::Read(bytes));
    assert(known.drop_last() =~= told);
    assert(written.drop_last() =~= known);
    assert(written.push(done).drop_last() =~= written);
    assert(written.push(done).push(done).drop_last() =~= written.push(done));
    assert(written.push(done).push(done).push(done).drop_last() =~= written.push(done).push(done));
    assert(known.push(done).drop_last() =~= known);
    assert(read.drop_last() =~= known.push(done));
    assert(read.push(done).drop_last() =~= read);
    assert(read.push(done).push(done).drop_last() =~= read.push(done));
}

/// A write that was committed is told as committed and, where it was asked for, as checked;
/// an eject that fails afterwards is told, and changes nothing of that. A job is completed
/// only once an eject that the order asks for has been tried.
pub proof fn committed_write_is_told(
    before: JobState,
    outcome: WriteOutcome,
    now: String,
    written: JobState,
    later: String,
    eject_fault: Option<String>,
    after: JobState,
)
    requires
        updated(before, RunnerUpdate::Written(outcome), now, written),
        updated(
            written,
            match eject_fault {
                Some(message) => RunnerUpdate::EjectFailed(message),
                None => RunnerUpdate::Ejected,
            },
            later,
            after,
        ),
    ensures
        written.phase is Completed == (before.spec.completion_action is KeepLoaded),
        written.phase is Ejecting == (before.spec.completion_action is EjectAfterCommit),
        after.phase is Completed,
        after.completion.index_committed,
        after.completion.generation == Some(outcome.generation),
        (after.completion.verification is Passed) == before.spec.read_back_verify,
        (after.completion.verification is NotRequested) == !before.spec.read_back_verify,
        after.completion.corrected_write_errors == outcome.corrected_write_errors,
        after.completion.hard_write_errors == outcome.hard_write_errors,
        after.completion.corrected_read_errors == outcome.corrected_read_errors,
        after.completion.hard_read_errors == outcome.hard_read_errors,
        after.completion.tape_alerts == outcome.tape_alerts,
        eject_fault is None ==> after.completion.eject is Succeeded && after.error == before.error,
        eject_fault is Some ==> after.completion.eject is Failed && after.error is Some,
        after.spec == before.spec,
        after.progress == before.progress,
{
}

} // verus!
