//! What the runner of a job does, step by step.
use vstd::prelude::*;
use vstd::string::*;

use super::order::{
    effective_roots, mount_fault, operation_name, validate_host_mount, CompletionAction, Endpoint,
    JobSpec, Mounts, OperationKind, Resolved,
};
use super::state::{EjectStatus, JobPhase, JobProgress, JobCompletion, JobState, VerificationStatus};
use crate::app::drives::{select_drive, selected_position};
use crate::app::probe::saturating;
use crate::app::source::{
    assess_write_capacity, available_spec, status_spec, CapacityStatus, WritePlanExpectation,
};
use crate::app::write_state::{CancellationToken, WriteOptions, WriteVerification};
use crate::device::lease::LeaseOwner;
use crate::device::TapeDrive;
use crate::text::{cat2, cat4, decimal, decimal_spec, same};

verus! {

// ---------------------------------------------------------------------------
// What the runner tells
// ---------------------------------------------------------------------------

/// How the counters of the drive changed over a write, and its alerts.
#[derive(Debug, PartialEq, Eq)]
pub struct WriteOutcome {
    pub generation: u64,
    pub corrected_write_errors: Option<u64>,
    pub hard_write_errors: Option<u64>,
    pub corrected_read_errors: Option<u64>,
    pub hard_read_errors: Option<u64>,
    pub tape_alerts: Vec<u16>,
}

/// A change of the job that the runner makes known.
#[derive(Debug, PartialEq, Eq)]
pub enum RunnerUpdate {
    Running,
    Written(WriteOutcome),
    Ejected,
    EjectFailed(String),
    ReadCompleted(u64),
}

/// What a change makes of a job.
pub open spec fn updated(before: JobState, update: RunnerUpdate, now: String, after: JobState) -> bool {
    let base = JobState {
        revision: saturating(before.revision as int, 1),
        updated_at: now,
        message: after.message,
        ..before
    };
    let eject = before.spec.completion_action is EjectAfterCommit;
    match update {
        RunnerUpdate::Running => {
            &&& after == (JobState { phase: JobPhase::Running, ..base })
            &&& after.message@ == operation_name(before.spec.operation) + " operation 正在运行"@
        },
        RunnerUpdate::Written(outcome) => {
            &&& after == (JobState {
                phase: if eject {
                    JobPhase::Ejecting
                } else {
                    JobPhase::Completed
                },
                completion: JobCompletion {
                    index_committed: true,
                    generation: Some(outcome.generation),
                    verification: if before.spec.read_back_verify {
                        VerificationStatus::Passed
                    } else {
                        VerificationStatus::NotRequested
                    },
                    eject: if eject {
                        EjectStatus::Pending
                    } else {
                        EjectStatus::NotRequested
                    },
                    corrected_write_errors: outcome.corrected_write_errors,
                    hard_write_errors: outcome.hard_write_errors,
                    corrected_read_errors: outcome.corrected_read_errors,
                    hard_read_errors: outcome.hard_read_errors,
                    tape_alerts: outcome.tape_alerts,
                },
                ..base
            })
            &&& after.message@ == (if eject {
                "写入和索引提交已完成，正在自动 Eject"@
            } else {
                "Write operation 已完成；磁带保持装载"@
            })
        },
        RunnerUpdate::Ejected => {
            &&& after == (JobState {
                phase: JobPhase::Completed,
                completion: JobCompletion {
                    eject: EjectStatus::Succeeded,
                    ..before.completion
                },
                ..base
            })
            &&& after.message@ == "Write operation 已完成，磁带已自动弹出"@
        },
        RunnerUpdate::EjectFailed(message) => {
            &&& after == (JobState {
                phase: JobPhase::Completed,
                completion: JobCompletion {
                    eject: EjectStatus::Failed(message),
                    ..before.completion
                },
                error: after.error,
                ..base
            })
            &&& after.message@ == "写入和索引提交成功，但自动弹出失败"@
            &&& after.error is Some
            &&& after.error->0@ == "自动 Eject 失败："@ + message@
        },
        RunnerUpdate::ReadCompleted(bytes) => {
            &&& after == (JobState {
                phase: JobPhase::Completed,
                progress: JobProgress {
                    items_completed: 1,
                    items_total: 1,
                    bytes_completed: bytes,
                    bytes_total: bytes,
                    ..before.progress
                },
                ..base
            })
            &&& after.message@ == "Read operation 已完成"@
        },
    }
}

/// Makes a change known.
pub fn apply_update(state: &mut JobState, update: RunnerUpdate, now: String)
    ensures
        updated(*old(state), update, now, *final(state)),
{
    state.revision = state.revision.saturating_add(1);
    state.updated_at = now;
    match update {
        RunnerUpdate::Running => {
            state.phase = JobPhase::Running;
            state.message = cat2(state.spec.operation.name(), " operation 正在运行");
        },
        RunnerUpdate::Written(outcome) => {
            let eject = state.spec.completion_action == CompletionAction::EjectAfterCommit;
            state.completion = JobCompletion {
                index_committed: true,
                generation: Some(outcome.generation),
                verification: if state.spec.read_back_verify {
                    VerificationStatus::Passed
                } else {
                    VerificationStatus::NotRequested
                },
                eject: if eject {
                    EjectStatus::Pending
                } else {
                    EjectStatus::NotRequested
                },
                corrected_write_errors: outcome.corrected_write_errors,
                hard_write_errors: outcome.hard_write_errors,
                corrected_read_errors: outcome.corrected_read_errors,
                hard_read_errors: outcome.hard_read_errors,
                tape_alerts: outcome.tape_alerts,
            };
            if eject {
                state.phase = JobPhase::Ejecting;
                state.message = "写入和索引提交已完成，正在自动 Eject".to_owned();
            } else {
                state.phase = JobPhase::Completed;
                state.message = "Write operation 已完成；磁带保持装载".to_owned();
            }
        },
        RunnerUpdate::Ejected => {
            state.phase = JobPhase::Completed;
            state.completion.eject = EjectStatus::Succeeded;
            state.message = "Write operation 已完成，磁带已自动弹出".to_owned();
        },
        RunnerUpdate::EjectFailed(message) => {
            state.phase = JobPhase::Completed;
            state.error = Some(cat2("自动 Eject 失败：", message.as_str()));
            state.completion.eject = EjectStatus::Failed(message);
            state.message = "写入和索引提交成功，但自动弹出失败".to_owned();
        },
        RunnerUpdate::ReadCompleted(bytes) => {
            state.phase = JobPhase::Completed;
            state.message = "Read operation 已完成".to_owned();
            state.progress.items_completed = 1;
            state.progress.items_total = 1;
            state.progress.bytes_completed = bytes;
            state.progress.bytes_total = bytes;
        },
    }
}

/// A write that is committed stays committed where only the eject fails.
pub proof fn failed_eject_keeps_commit(
    before: JobState,
    outcome: WriteOutcome,
    now: String,
    written: JobState,
    message: String,
    later: String,
    after: JobState,
)
    requires
        updated(before, RunnerUpdate::Written(outcome), now, written),
        updated(written, RunnerUpdate::EjectFailed(message), later, after),
    ensures
        after.phase is Completed,
        after.completion.index_committed,
        after.completion.generation == Some(outcome.generation),
{
}

// ---------------------------------------------------------------------------
// The run
// ---------------------------------------------------------------------------

/// Where a run stands: what it waits for.
#[derive(Debug, Clone, Copy, PartialEq, Eq, Structural)]
pub enum RunnerStage {
    Lease,
    Drives,
    Mounts,
    Media,
    Running,
    Write,
    Written { eject: bool },
    Eject,
    Output,
    Read,
    Sync { bytes: u64 },
    Last,
}

/// What came of an action.
#[derive(Debug, PartialEq, Eq)]
pub enum RunnerReply {
    Done,
    Failed(String),
    Drives(Vec<TapeDrive>),
    /// What is mounted, and what the paths of the endpoints on the host resolve to.
    Mounts { mounts: Mounts, resolved: Vec<Resolved> },
    /// How much room the cartridge has, where it says so, and the time.
    Media { remaining_capacity_mib: Option<u64>, now: String },
    Written(WriteOutcome),
    Read(u64),
}

/// What the runner does next.
#[derive(Debug, PartialEq, Eq)]
pub enum RunnerAction {
    /// Takes the device for itself.
    Lease { serial: String, owner: LeaseOwner },
    Discover,
    ReadMounts,
    InspectMedia,
    Update(RunnerUpdate),
    Write { options: WriteOptions },
    Eject,
    OpenOutput,
    Read,
    SyncOutput,
    Finished,
    Failed(String),
}

/// The model of what the runner does next.
pub enum RunnerActionModel {
    Lease { serial: Seq<char>, operation: Seq<char>, job: Seq<char> },
    Discover,
    ReadMounts,
    InspectMedia,
    Running,
    Written(WriteOutcome),
    Ejected,
    EjectFailed(Seq<char>),
    ReadCompleted(u64),
    Write { options: WriteOptions },
    Eject,
    OpenOutput,
    Read,
    SyncOutput,
    Finished,
    Failed(Seq<char>),
}

/// An action and its model.
pub open spec fn acts(action: RunnerAction, model: RunnerActionModel) -> bool {
    match (action, model) {
        (RunnerAction::Lease { serial, owner }, RunnerActionModel::Lease {
            serial: s,
            operation,
            job,
        }) => serial@ == s && owner.kind@ == "job-runner"@ && owner.operation@ == operation
            && owner.job_id is Some && owner.job_id->0@ == job,
        (RunnerAction::Discover, RunnerActionModel::Discover) => true,
        (RunnerAction::ReadMounts, RunnerActionModel::ReadMounts) => true,
        (RunnerAction::InspectMedia, RunnerActionModel::InspectMedia) => true,
        (RunnerAction::Update(RunnerUpdate::Running), RunnerActionModel::Running) => true,
        (RunnerAction::Update(RunnerUpdate::Written(a)), RunnerActionModel::Written(b)) => a == b,
        (RunnerAction::Update(RunnerUpdate::Ejected), RunnerActionModel::Ejected) => true,
        (
            RunnerAction::Update(RunnerUpdate::EjectFailed(a)),
            RunnerActionModel::EjectFailed(b),
        ) => a@ == b,
        (
            RunnerAction::Update(RunnerUpdate::ReadCompleted(a)),
            RunnerActionModel::ReadCompleted(b),
        ) => a == b,
        (RunnerAction::Write { options: a }, RunnerActionModel::Write { options: b }) => a == b,
        (RunnerAction::Eject, RunnerActionModel::Eject) => true,
        (RunnerAction::OpenOutput, RunnerActionModel::OpenOutput) => true,
        (RunnerAction::Read, RunnerActionModel::Read) => true,
        (RunnerAction::SyncOutput, RunnerActionModel::SyncOutput) => true,
        (RunnerAction::Finished, RunnerActionModel::Finished) => true,
        (RunnerAction::Failed(a), RunnerActionModel::Failed(b)) => a@ == b,
        _ => false,
    }
}

/// A run of a job.
pub struct JobRun {
    spec: JobSpec,
    stage: RunnerStage,
}

/// Why an action did not bring what it should.
pub open spec fn runner_refusal(reply: RunnerReply) -> Seq<char> {
    match reply {
        RunnerReply::Failed(message) => message@,
        _ => "runner 回应与操作不符"@,
    }
}

fn refusal_of(reply: RunnerReply) -> (message: String)
    ensures
        message@ == runner_refusal(reply),
{
    match reply {
        RunnerReply::Failed(message) => message,
        _ => "runner 回应与操作不符".to_owned(),
    }
}

/// What is wrong with the drive that was found.
pub open spec fn drive_fault(order: JobSpec, drives: Seq<TapeDrive>) -> Option<Seq<char>> {
    match selected_position(drives, Some(order.drive_selector@)) {
        Err(message) => Some(message),
        Ok(k) => if drives[k].serial@ != order.drive_serial@ {
            Some(
                "磁带机身份变化：计划 serial="@ + order.drive_serial@ + "，当前 serial="@
                    + drives[k].serial@,
            )
        } else {
            None
        },
    }
}

/// The endpoints on the host whose mounts must not have changed.
pub open spec fn host_endpoints(order: JobSpec) -> Seq<Endpoint> {
    match order.operation {
        OperationKind::Write => effective_roots(order),
        OperationKind::Read => seq![order.destination],
    }
}

/// What is wrong with the first endpoint whose mount has changed.
pub open spec fn mounts_fault(
    endpoints: Seq<Endpoint>,
    resolved: Seq<Resolved>,
    mounts: Mounts,
) -> Option<Seq<char>>
    decreases endpoints.len(),
{
    if endpoints.len() == 0 {
        None
    } else {
        match mounts_fault(endpoints.drop_last(), resolved, mounts) {
            Some(message) => Some(message),
            None => if endpoints.len() <= resolved.len() {
                mount_fault(endpoints.last(), resolved[endpoints.len() - 1], mounts)
            } else {
                Some("runner 回应与操作不符"@)
            },
        }
    }
}

/// Why a write that was planned does not fit any more.
pub open spec fn capacity_fault(
    payload: u64,
    acknowledged: bool,
    remaining_mib: Option<u64>,
) -> Option<Seq<char>> {
    let available = available_spec(remaining_mib);
    match status_spec(payload, available) {
        CapacityStatus::BlockedInsufficient => Some(
            "runner 启动前容量复核失败：payload="@ + decimal_spec(payload as nat)
                + " bytes，available="@ + decimal_spec(
                match available {
                    Some(n) => n as nat,
                    None => 0,
                },
            ) + " bytes"@,
        ),
        CapacityStatus::Normal => None,
        _ => if acknowledged {
            None
        } else {
            Some("runner 容量复核产生尚未确认的 warning；请返回确认页"@)
        },
    }
}

/// The options of the write that an order asks for.
pub open spec fn job_write_options(order: JobSpec) -> WriteOptions {
    WriteOptions {
        verification: if order.read_back_verify {
            WriteVerification::ReadBackSha256
        } else {
            WriteVerification::Off
        },
        expected_source: match order.write_preflight {
            Some(p) => Some(
                WritePlanExpectation {
                    files: p.files_total,
                    directories: p.directories_total,
                    payload_bytes: p.payload_bytes,
                },
            ),
            None => None,
        },
        failpoint: None,
        cancellation: Some(CancellationToken { requested: false }),
        cancelpoint: None,
    }
}

pub open spec fn runner_fails(stage: RunnerStage, message: Seq<char>) -> (
    RunnerStage,
    RunnerActionModel,
) {
    (stage, RunnerActionModel::Failed(message))
}

/// A run at its start: the drive is leased for the job.
pub open spec fn runner_begin(order: JobSpec) -> (RunnerStage, RunnerActionModel) {
    (
        RunnerStage::Lease,
        RunnerActionModel::Lease {
            serial: order.drive_serial@,
            operation: operation_name(order.operation),
            job: order.id@,
        },
    )
}

/// The next action of a run, given what came of the last one.
pub open spec fn runner_next(order: JobSpec, stage: RunnerStage, reply: RunnerReply) -> (
    RunnerStage,
    RunnerActionModel,
) {
    match (stage, reply) {
        (RunnerStage::Lease, RunnerReply::Done) => (
            RunnerStage::Drives,
            RunnerActionModel::Discover,
        ),
        (RunnerStage::Drives, RunnerReply::Drives(drives)) => match drive_fault(order, drives@) {
            Some(message) => runner_fails(stage, message),
            None => (RunnerStage::Mounts, RunnerActionModel::ReadMounts),
        },
        (RunnerStage::Mounts, RunnerReply::Mounts { mounts, resolved }) => match mounts_fault(
            host_endpoints(order),
            resolved@,
            mounts,
        ) {
            Some(message) => runner_fails(stage, message),
            None => if order.write_preflight is Some {
                (RunnerStage::Media, RunnerActionModel::InspectMedia)
            } else {
                (RunnerStage::Running, RunnerActionModel::Running)
            },
        },
        (RunnerStage::Media, RunnerReply::Media { remaining_capacity_mib, now }) =>
            match order.write_preflight {
                Some(p) => match capacity_fault(
                    p.payload_bytes,
                    p.warning_acknowledged,
                    remaining_capacity_mib,
                ) {
                    Some(message) => runner_fails(stage, message),
                    None => (RunnerStage::Running, RunnerActionModel::Running),
                },
                None => (RunnerStage::Running, RunnerActionModel::Running),
            },
        (RunnerStage::Running, RunnerReply::Done) => match order.operation {
            OperationKind::Write => (
                RunnerStage::Write,
                RunnerActionModel::Write { options: job_write_options(order) },
            ),
            OperationKind::Read => (RunnerStage::Output, RunnerActionModel::OpenOutput),
        },
        (RunnerStage::Write, RunnerReply::Written(outcome)) => (
            RunnerStage::Written { eject: order.completion_action is EjectAfterCommit },
            RunnerActionModel::Written(outcome),
        ),
        (RunnerStage::Written { eject }, RunnerReply::Done) => if eject {
            (RunnerStage::Eject, RunnerActionModel::Eject)
        } else {
            (RunnerStage::Last, RunnerActionModel::Finished)
        },
        (RunnerStage::Eject, RunnerReply::Done) => (
            RunnerStage::Last,
            RunnerActionModel::Ejected,
        ),
        (RunnerStage::Eject, _) => (
            RunnerStage::Last,
            RunnerActionModel::EjectFailed(runner_refusal(reply)),
        ),
        (RunnerStage::Output, RunnerReply::Done) => (
            RunnerStage::Read,
            RunnerActionModel::Read,
        ),
        (RunnerStage::Output, _) => runner_fails(
            stage,
            "创建 Read destination "@ + order.destination.path@ + " 失败: "@ + runner_refusal(
                reply,
            ),
        ),
        (RunnerStage::Read, RunnerReply::Read(bytes)) => (
            RunnerStage::Sync { bytes },
            RunnerActionModel::SyncOutput,
        ),
        (RunnerStage::Sync { bytes }, RunnerReply::Done) => (
            RunnerStage::Last,
            RunnerActionModel::ReadCompleted(bytes),
        ),
        (RunnerStage::Sync { .. }, _) => runner_fails(
            stage,
            "同步 Read destination 失败: "@ + runner_refusal(reply),
        ),
        (RunnerStage::Last, RunnerReply::Done) => (
            RunnerStage::Last,
            RunnerActionModel::Finished,
        ),
        _ => runner_fails(stage, runner_refusal(reply)),
    }
}

fn check_drives(order: &JobSpec, drives: &Vec<TapeDrive>) -> (fault: Option<String>)
    ensures
        crate::text::opt_view(fault) == drive_fault(*order, drives@),
{
    match select_drive(drives, Some(order.drive_selector.as_str())) {
        Err(message) => Some(message),
        Ok(drive) => {
            if !same(drive.serial.as_str(), order.drive_serial.as_str()) {
                Some(
                    cat4(
                        "磁带机身份变化：计划 serial=",
                        order.drive_serial.as_str(),
                        "，当前 serial=",
                        drive.serial.as_str(),
                    ),
                )
            } else {
                None
            }
        },
    }
}

fn endpoints_of(order: &JobSpec) -> (endpoints: Vec<Endpoint>)
    ensures
        endpoints@ == host_endpoints(*order),
{
    match order.operation {
        OperationKind::Write => order.effective_source_roots(),
        OperationKind::Read => {
            let mut list: Vec<Endpoint> = Vec::new();
            list.push(order.destination.clone());
            assert(list@ =~= host_endpoints(*order));
            list
        },
    }
}

fn check_mounts(order: &JobSpec, resolved: &Vec<Resolved>, mounts: &Mounts) -> (fault: Option<
    String,
>)
    ensures
        crate::text::opt_view(fault) == mounts_fault(host_endpoints(*order), resolved@, *mounts),
{
    let endpoints = endpoints_of(order);
    let ghost all = host_endpoints(*order);
    let mut i: usize = 0;
    assert(all.subrange(0, 0) =~= Seq::<Endpoint>::empty());
    while i < endpoints.len()
        invariant
            i <= all.len(),
            endpoints@ == all,
            mounts_fault(all.subrange(0, i as int), resolved@, *mounts) is None,
            all == host_endpoints(*order),
        decreases all.len() - i,
    {
        let ghost next = all.subrange(0, i + 1);
        assert(next.drop_last() =~= all.subrange(0, i as int));
        assert(next.last() == all[i as int]);
        if i >= resolved.len() {
            proof {
                lemma_first_fault(all, i + 1, resolved@, *mounts);
            }
            return Some("runner 回应与操作不符".to_owned());
        }
        match validate_host_mount(&endpoints[i], &resolved[i], mounts) {
            Ok(_) => {},
            Err(message) => {
                proof {
                    lemma_first_fault(all, i + 1, resolved@, *mounts);
                }
                return Some(message);
            },
        }
        i = i + 1;
    }
    assert(all.subrange(0, i as int) =~= all);
    None
}

proof fn lemma_first_fault(
    endpoints: Seq<Endpoint>,
    k: int,
    resolved: Seq<Resolved>,
    mounts: Mounts,
)
    requires
        0 <= k <= endpoints.len(),
        mounts_fault(endpoints.subrange(0, k), resolved, mounts) is Some,
    ensures
        mounts_fault(endpoints, resolved, mounts) == mounts_fault(
            endpoints.subrange(0, k),
            resolved,
            mounts,
        ),
    decreases endpoints.len() - k,
{
    if k < endpoints.len() {
        assert(endpoints.subrange(0, k + 1).drop_last() =~= endpoints.subrange(0, k));
        lemma_first_fault(endpoints, k + 1, resolved, mounts);
    } else {
        assert(endpoints.subrange(0, k) =~= endpoints);
    }
}

/// Whether a write that was planned still fits.
pub fn check_capacity(payload: u64, acknowledged: bool, remaining_mib: Option<u64>, now: &str) -> (fault:
    Option<String>)
    ensures
        crate::text::opt_view(fault) == capacity_fault(payload, acknowledged, remaining_mib),
{
    let current = assess_write_capacity(payload, remaining_mib, now);
    match current.status {
        CapacityStatus::BlockedInsufficient => {
            let available: u64 = match current.available_bytes {
                Some(n) => n,
                None => 0,
            };
            let mut text = cat4(
                "runner 启动前容量复核失败：payload=",
                decimal(payload).as_str(),
                " bytes，available=",
                decimal(available).as_str(),
            );
            text.append(" bytes");
            Some(text)
        },
        CapacityStatus::Normal => None,
        _ => if acknowledged {
            None
        } else {
            Some("runner 容量复核产生尚未确认的 warning；请返回确认页".to_owned())
        },
    }
}

/// The options of the write that an order asks for.
pub fn write_options_of(order: &JobSpec) -> (options: WriteOptions)
    ensures
        options == job_write_options(*order),
{
    WriteOptions {
        verification: if order.read_back_verify {
            WriteVerification::ReadBackSha256
        } else {
            WriteVerification::Off
        },
        expected_source: match &order.write_preflight {
            Some(p) => Some(
                WritePlanExpectation {
                    files: p.files_total,
                    directories: p.directories_total,
                    payload_bytes: p.payload_bytes,
                },
            ),
            None => None,
        },
        failpoint: None,
        cancellation: Some(CancellationToken { requested: false }),
        cancelpoint: None,
    }
}

impl JobRun {
    pub closed spec fn order(&self) -> JobSpec {
        self.spec
    }

    pub closed spec fn stage(&self) -> RunnerStage {
        self.stage
    }

    /// Begins a run: the device is taken first.
    pub fn new(spec: JobSpec) -> (result: (JobRun, RunnerAction))
        ensures
            result.0.order() == spec,
            result.0.stage() == runner_begin(spec).0,
            acts(result.1, runner_begin(spec).1),
    {
        let action = RunnerAction::Lease {
            serial: spec.drive_serial.clone(),
            owner: LeaseOwner::job_runner(spec.operation.name(), spec.id.as_str()),
        };
        (JobRun { spec, stage: RunnerStage::Lease }, action)
    }

    /// The paths on the host whose mounts must not have changed.
    pub fn host_paths(&self) -> (paths: Vec<String>)
        ensures
            crate::text::views(paths@) == host_endpoints(self.order()).map_values(
                |e: Endpoint| e.path@,
            ),
    {
        let endpoints = endpoints_of(&self.spec);
        let mut paths: Vec<String> = Vec::new();
        let mut i: usize = 0;
        while i < endpoints.len()
            invariant
                i <= endpoints@.len(),
                paths@.len() == i,
                forall|j: int| 0 <= j < i ==> #[trigger] paths@[j]@ == endpoints@[j].path@,
            decreases endpoints@.len() - i,
        {
            paths.push(endpoints[i].path.clone());
            i = i + 1;
        }
        assert(crate::text::views(paths@) =~= host_endpoints(self.order()).map_values(
            |e: Endpoint| e.path@,
        ));
        paths
    }

    /// The next action, given what came of the last one.
    pub fn run_operation(&mut self, reply: RunnerReply) -> (action: RunnerAction)
        ensures
            final(self).order() == old(self).order(),
            final(self).stage() == runner_next(old(self).order(), old(self).stage(), reply).0,
            acts(action, runner_next(old(self).order(), old(self).stage(), reply).1),
    {
        match self.stage {
            RunnerStage::Lease => match reply {
                RunnerReply::Done => {
                    self.stage = RunnerStage::Drives;
                    RunnerAction::Discover
                },
                other => RunnerAction::Failed(refusal_of(other)),
            },
            RunnerStage::Drives => match reply {
                RunnerReply::Drives(drives) => match check_drives(&self.spec, &drives) {
                    Some(message) => RunnerAction::Failed(message),
                    None => {
                        self.stage = RunnerStage::Mounts;
                        RunnerAction::ReadMounts
                    },
                },
                other => RunnerAction::Failed(refusal_of(other)),
            },
            RunnerStage::Mounts => match reply {
                RunnerReply::Mounts { mounts, resolved } => match check_mounts(
                    &self.spec,
                    &resolved,
                    &mounts,
                ) {
                    Some(message) => RunnerAction::Failed(message),
                    None => {
                        if self.spec.write_preflight.is_some() {
                            self.stage = RunnerStage::Media;
                            RunnerAction::InspectMedia
                        } else {
                            self.stage = RunnerStage::Running;
                            RunnerAction::Update(RunnerUpdate::Running)
                        }
                    },
                },
                other => RunnerAction::Failed(refusal_of(other)),
            },
            RunnerStage::Media => match reply {
                RunnerReply::Media { remaining_capacity_mib, now } => {
                    let fault = match &self.spec.write_preflight {
                        Some(p) => check_capacity(
                            p.payload_bytes,
                            p.warning_acknowledged,
                            remaining_capacity_mib,
                            now.as_str(),
                        ),
                        None => None,
                    };
                    match fault {
                        Some(message) => RunnerAction::Failed(message),
                        None => {
                            self.stage = RunnerStage::Running;
                            RunnerAction::Update(RunnerUpdate::Running)
                        },
                    }
                },
                other => RunnerAction::Failed(refusal_of(other)),
            },
            RunnerStage::Running => match reply {
                RunnerReply::Done => match self.spec.operation {
                    OperationKind::Write => {
                        self.stage = RunnerStage::Write;
                        RunnerAction::Write { options: write_options_of(&self.spec) }
                    },
                    OperationKind::Read => {
                        self.stage = RunnerStage::Output;
                        RunnerAction::OpenOutput
                    },
                },
                other => RunnerAction::Failed(refusal_of(other)),
            },
            RunnerStage::Write => match reply {
                RunnerReply::Written(outcome) => {
                    let eject = self.spec.completion_action
                        == CompletionAction::EjectAfterCommit;
                    self.stage = RunnerStage::Written { eject };
                    RunnerAction::Update(RunnerUpdate::Written(outcome))
                },
                other => RunnerAction::Failed(refusal_of(other)),
            },
            RunnerStage::Written { eject } => match reply {
                RunnerReply::Done => {
                    if eject {
                        self.stage = RunnerStage::Eject;
                        RunnerAction::Eject
                    } else {
                        self.stage = RunnerStage::Last;
                        RunnerAction::Finished
                    }
                },
                other => RunnerAction::Failed(refusal_of(other)),
            },
            RunnerStage::Eject => {
                self.stage = RunnerStage::Last;
                match reply {
                    RunnerReply::Done => RunnerAction::Update(RunnerUpdate::Ejected),
                    other => RunnerAction::Update(
                        RunnerUpdate::EjectFailed(refusal_of(other)),
                    ),
                }
            },
            RunnerStage::Output => match reply {
                RunnerReply::Done => {
                    self.stage = RunnerStage::Read;
                    RunnerAction::Read
                },
                other => {
                    let message = refusal_of(other);
                    RunnerAction::Failed(
                        cat4(
                            "创建 Read destination ",
                            self.spec.destination.path.as_str(),
                            " 失败: ",
                            message.as_str(),
                        ),
                    )
                },
            },
            RunnerStage::Read => match reply {
                RunnerReply::Read(bytes) => {
                    self.stage = RunnerStage::Sync { bytes };
                    RunnerAction::SyncOutput
                },
                other => RunnerAction::Failed(refusal_of(other)),
            },
            RunnerStage::Sync { bytes } => match reply {
                RunnerReply::Done => {
                    self.stage = RunnerStage::Last;
                    RunnerAction::Update(RunnerUpdate::ReadCompleted(bytes))
                },
                other => {
                    let message = refusal_of(other);
                    RunnerAction::Failed(
                        cat2("同步 Read destination 失败: ", message.as_str()),
                    )
                },
            },
            RunnerStage::Last => match reply {
                RunnerReply::Done => RunnerAction::Finished,
                other => RunnerAction::Failed(refusal_of(other)),
            },
        }
    }
}

/// A job touches the tape only once the device is its own, it is the drive that was
/// meant, the mounts are those of the plan, and what is written still fits.
pub proof fn tape_is_touched_last(order: JobSpec, stage: RunnerStage, reply: RunnerReply)
    requires
        stage is Lease || stage is Drives || stage is Mounts || stage is Media,
    ensures
        ({
            let next = runner_next(order, stage, reply);
            &&& !(next.1 is Write) && !(next.1 is Read) && !(next.1 is Eject)
            &&& next.0 is Running ==> stage is Media || (stage is Mounts
                && order.write_preflight is None)
        }),
{
}

/// A cartridge is ejected only where the order asks for it, and only once the write has
/// been committed.
pub proof fn eject_follows_commit(order: JobSpec, stage: RunnerStage, reply: RunnerReply)
    requires
        runner_next(order, stage, reply).1 is Eject,
    ensures
        stage == (RunnerStage::Written { eject: true }),
{
}

} // verus!
