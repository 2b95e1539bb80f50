//! How far a job is.
use vstd::prelude::*;
use vstd::string::*;

use super::order::{order_fault, same_order, JobSpec, OperationKind, PROTOCOL_VERSION};
use crate::app::append::ReadEvent;

use crate::app::probe::saturating;
use crate::app::telemetry::{
    find_worst, recent, worst_channel, PERFORMANCE_HISTORY_CAPACITY,
};
use crate::app::write_state::{
    phase_name, FloatBits, WriteCommitState, WriteEvent, WritePhase,
};
use crate::device::channel_error::ChannelRate;
use crate::sort::Ranked;
use crate::text::{
    clone_opt, contains, contains_spec, lemma_text_le_total, lemma_text_le_trans, replace,
    replaced_spec, text_le,
};

verus! {

#[derive(Debug, Clone, Copy, PartialEq, Eq, Structural)]
pub enum JobPhase {
    Queued,
    Starting,
    Running,
    Finalizing,
    Verifying,
    Ejecting,
    CancellationRequested,
    Cancelled,
    Completed,
    Failed,
    Interrupted,
}

/// The job is still to do something.
pub open spec fn active(phase: JobPhase) -> bool {
    !(phase is Cancelled || phase is Completed || phase is Failed || phase is Interrupted)
}

/// The name of a phase.
pub open spec fn job_phase_name(phase: JobPhase) -> Seq<char> {
    match phase {
        JobPhase::Queued => "Queued"@,
        JobPhase::Starting => "Starting"@,
        JobPhase::Running => "Running"@,
        JobPhase::Finalizing => "Finalizing"@,
        JobPhase::Verifying => "Verifying"@,
        JobPhase::Ejecting => "Ejecting"@,
        JobPhase::CancellationRequested => "CancellationRequested"@,
        JobPhase::Cancelled => "Cancelled"@,
        JobPhase::Completed => "Completed"@,
        JobPhase::Failed => "Failed"@,
        JobPhase::Interrupted => "Interrupted"@,
    }
}

impl JobPhase {
    /// The job is still to do something.
    pub fn is_active(self) -> (yes: bool)
        ensures
            yes == active(self),
    {
        match self {
            JobPhase::Queued | JobPhase::Starting | JobPhase::Running | JobPhase::Finalizing
            | JobPhase::Verifying | JobPhase::Ejecting | JobPhase::CancellationRequested => true,
            _ => false,
        }
    }

    /// The job is over.
    pub fn is_terminal(self) -> (yes: bool)
        ensures
            yes == !active(self),
    {
        !self.is_active()
    }

    /// The name of a phase.
    pub fn name(self) -> (name: &'static str)
        ensures
            name@ == job_phase_name(self),
    {
        match self {
            JobPhase::Queued => "Queued",
            JobPhase::Starting => "Starting",
            JobPhase::Running => "Running",
            JobPhase::Finalizing => "Finalizing",
            JobPhase::Verifying => "Verifying",
            JobPhase::Ejecting => "Ejecting",
            JobPhase::CancellationRequested => "CancellationRequested",
            JobPhase::Cancelled => "Cancelled",
            JobPhase::Completed => "Completed",
            JobPhase::Failed => "Failed",
            JobPhase::Interrupted => "Interrupted",
        }
    }
}

#[derive(Debug, Clone, Copy, PartialEq, Eq, Structural)]
pub enum VerificationStatus {
    NotRequested,
    Running,
    Passed,
    Failed,
}

impl Default for VerificationStatus {
    fn default() -> (s: VerificationStatus)
        ensures
            s == VerificationStatus::NotRequested,
    {
        VerificationStatus::NotRequested
    }
}

#[derive(Debug, PartialEq, Eq)]
pub enum EjectStatus {
    NotRequested,
    Pending,
    Succeeded,
    Failed(String),
}

impl Default for EjectStatus {
    fn default() -> (s: EjectStatus)
        ensures
            s is NotRequested,
    {
        EjectStatus::NotRequested
    }
}

impl Clone for EjectStatus {
    fn clone(&self) -> (copy: EjectStatus)
        ensures
            copy == *self,
    {
        match self {
            EjectStatus::NotRequested => EjectStatus::NotRequested,
            EjectStatus::Pending => EjectStatus::Pending,
            EjectStatus::Succeeded => EjectStatus::Succeeded,
            EjectStatus::Failed(message) => EjectStatus::Failed(message.clone()),
        }
    }
}

/// How fast a job wrote at a moment.
#[derive(Debug, PartialEq, Eq)]
pub struct JobThroughputSample {
    pub timestamp: String,
    pub bytes_per_second: FloatBits,
}

/// How far a job is; rates of channels by their ordering keys.
#[derive(Debug, PartialEq, Eq)]
pub struct JobProgress {
    pub current_item: Option<String>,
    pub items_completed: u64,
    pub items_total: u64,
    pub bytes_completed: u64,
    pub bytes_total: u64,
    pub partition: Option<u8>,
    pub logical_block: Option<u64>,
    pub tape_bytes_per_second: Option<FloatBits>,
    pub source_bytes_per_second: Option<FloatBits>,
    pub buffer_used_bytes: Option<u64>,
    pub buffer_capacity_bytes: Option<u64>,
    pub reader_waiting: bool,
    pub writer_waiting: bool,
    pub performance_updated_at: Option<String>,
    pub worst_channel_rate: Option<i64>,
    pub channel_rates: Vec<ChannelRate>,
    pub session_worst_channel: Option<usize>,
    pub session_worst_channel_rate: Option<i64>,
    pub telemetry_updated_at: Option<String>,
    pub throughput_history: Vec<JobThroughputSample>,
}

/// Nothing is done yet.
pub open spec fn no_progress(p: JobProgress) -> bool {
    &&& p.channel_rates@.len() == 0
    &&& p.throughput_history@.len() == 0
    &&& p == (JobProgress {
        current_item: None,
        items_completed: 0,
        items_total: 0,
        bytes_completed: 0,
        bytes_total: 0,
        partition: None,
        logical_block: None,
        tape_bytes_per_second: None,
        source_bytes_per_second: None,
        buffer_used_bytes: None,
        buffer_capacity_bytes: None,
        reader_waiting: false,
        writer_waiting: false,
        performance_updated_at: None,
        worst_channel_rate: None,
        channel_rates: p.channel_rates,
        session_worst_channel: None,
        session_worst_channel_rate: None,
        telemetry_updated_at: None,
        throughput_history: p.throughput_history,
    })
}

impl Default for JobProgress {
    fn default() -> (p: JobProgress)
        ensures
            no_progress(p),
    {
        JobProgress {
            current_item: None,
            items_completed: 0,
            items_total: 0,
            bytes_completed: 0,
            bytes_total: 0,
            partition: None,
            logical_block: None,
            tape_bytes_per_second: None,
            source_bytes_per_second: None,
            buffer_used_bytes: None,
            buffer_capacity_bytes: None,
            reader_waiting: false,
            writer_waiting: false,
            performance_updated_at: None,
            worst_channel_rate: None,
            channel_rates: Vec::new(),
            session_worst_channel: None,
            session_worst_channel_rate: None,
            telemetry_updated_at: None,
            throughput_history: Vec::new(),
        }
    }
}

/// Two progresses hold the same.
pub open spec fn same_progress(a: JobProgress, b: JobProgress) -> bool {
    a.channel_rates@ == b.channel_rates@ && a.throughput_history@ == b.throughput_history@ && a
        == (JobProgress {
        channel_rates: a.channel_rates,
        throughput_history: a.throughput_history,
        ..b
    })
}

fn copy_rates(rates: &Vec<ChannelRate>) -> (copy: Vec<ChannelRate>)
    ensures
        copy@ == rates@,
{
    let mut copy: Vec<ChannelRate> = Vec::new();
    let mut i: usize = 0;
    while i < rates.len()
        invariant
            i <= rates@.len(),
            copy@ == rates@.subrange(0, i as int),
        decreases rates@.len() - i,
    {
        copy.push(rates[i]);
        i = i + 1;
        assert(copy@ =~= rates@.subrange(0, i as int));
    }
    assert(copy@ =~= rates@);
    copy
}

fn copy_history(list: &Vec<JobThroughputSample>) -> (copy: Vec<JobThroughputSample>)
    ensures
        copy@ == list@,
{
    let mut copy: Vec<JobThroughputSample> = Vec::new();
    let mut i: usize = 0;
    while i < list.len()
        invariant
            i <= list@.len(),
            copy@ == list@.subrange(0, i as int),
        decreases list@.len() - i,
    {
        let s = &list[i];
        copy.push(
            JobThroughputSample {
                timestamp: s.timestamp.clone(),
                bytes_per_second: s.bytes_per_second,
            },
        );
        i = i + 1;
        assert(copy@ =~= list@.subrange(0, i as int));
    }
    assert(copy@ =~= list@);
    copy
}

impl Clone for JobProgress {
    fn clone(&self) -> (copy: JobProgress)
        ensures
            same_progress(copy, *self),
    {
        JobProgress {
            current_item: clone_opt(&self.current_item),
            items_completed: self.items_completed,
            items_total: self.items_total,
            bytes_completed: self.bytes_completed,
            bytes_total: self.bytes_total,
            partition: self.partition,
            logical_block: self.logical_block,
            tape_bytes_per_second: self.tape_bytes_per_second,
            source_bytes_per_second: self.source_bytes_per_second,
            buffer_used_bytes: self.buffer_used_bytes,
            buffer_capacity_bytes: self.buffer_capacity_bytes,
            reader_waiting: self.reader_waiting,
            writer_waiting: self.writer_waiting,
            performance_updated_at: clone_opt(&self.performance_updated_at),
            worst_channel_rate: self.worst_channel_rate,
            channel_rates: copy_rates(&self.channel_rates),
            session_worst_channel: self.session_worst_channel,
            session_worst_channel_rate: self.session_worst_channel_rate,
            telemetry_updated_at: clone_opt(&self.telemetry_updated_at),
            throughput_history: copy_history(&self.throughput_history),
        }
    }
}

/// What a job has brought about.
#[derive(Debug, PartialEq, Eq)]
pub struct JobCompletion {
    pub index_committed: bool,
    pub generation: Option<u64>,
    pub verification: VerificationStatus,
    pub eject: EjectStatus,
    pub corrected_write_errors: Option<u64>,
    pub hard_write_errors: Option<u64>,
    pub corrected_read_errors: Option<u64>,
    pub hard_read_errors: Option<u64>,
    pub tape_alerts: Vec<u16>,
}

/// Nothing has been brought about.
pub open spec fn nothing_done(c: JobCompletion) -> bool {
    c.tape_alerts@.len() == 0 && c == (JobCompletion {
        index_committed: false,
        generation: None,
        verification: VerificationStatus::NotRequested,
        eject: EjectStatus::NotRequested,
        corrected_write_errors: None,
        hard_write_errors: None,
        corrected_read_errors: None,
        hard_read_errors: None,
        tape_alerts: c.tape_alerts,
    })
}

impl Default for JobCompletion {
    fn default() -> (c: JobCompletion)
        ensures
            nothing_done(c),
    {
        JobCompletion {
            index_committed: false,
            generation: None,
            verification: VerificationStatus::NotRequested,
            eject: EjectStatus::NotRequested,
            corrected_write_errors: None,
            hard_write_errors: None,
            corrected_read_errors: None,
            hard_read_errors: None,
            tape_alerts: Vec::new(),
        }
    }
}

/// Two completions hold the same.
pub open spec fn same_completion(a: JobCompletion, b: JobCompletion) -> bool {
    a.tape_alerts@ == b.tape_alerts@ && a == (JobCompletion { tape_alerts: a.tape_alerts, ..b })
}

impl Clone for JobCompletion {
    fn clone(&self) -> (copy: JobCompletion)
        ensures
            same_completion(copy, *self),
    {
        JobCompletion {
            index_committed: self.index_committed,
            generation: self.generation,
            verification: self.verification,
            eject: self.eject.clone(),
            corrected_write_errors: self.corrected_write_errors,
            hard_write_errors: self.hard_write_errors,
            corrected_read_errors: self.corrected_read_errors,
            hard_read_errors: self.hard_read_errors,
            tape_alerts: vstd::slice::slice_to_vec(self.tape_alerts.as_slice()),
        }
    }
}

/// A job, with all that is known of it.
#[derive(Debug, PartialEq, Eq)]
pub struct JobState {
    pub protocol_version: u16,
    /// Grows with every change.
    pub revision: u64,
    pub spec: JobSpec,
    pub phase: JobPhase,
    pub runner_pid: Option<u32>,
    pub updated_at: String,
    pub message: String,
    pub progress: JobProgress,
    pub error: Option<String>,
    pub requires_diagnosis: bool,
    pub completion: JobCompletion,
}

/// Two states hold the same.
pub open spec fn same_state(a: JobState, b: JobState) -> bool {
    same_order(a.spec, b.spec) && same_progress(a.progress, b.progress) && same_completion(
        a.completion,
        b.completion,
    ) && a == (JobState {
        spec: a.spec,
        progress: a.progress,
        completion: a.completion,
        ..b
    })
}

impl Clone for JobState {
    fn clone(&self) -> (copy: JobState)
        ensures
            same_state(copy, *self),
    {
        JobState {
            protocol_version: self.protocol_version,
            revision: self.revision,
            spec: self.spec.clone(),
            phase: self.phase,
            runner_pid: self.runner_pid,
            updated_at: self.updated_at.clone(),
            message: self.message.clone(),
            progress: self.progress.clone(),
            error: clone_opt(&self.error),
            requires_diagnosis: self.requires_diagnosis,
            completion: self.completion.clone(),
        }
    }
}

/// The states that were changed last come first.
impl Ranked for JobState {
    open spec fn ranks_at_most(&self, other: &JobState) -> bool {
        text_le(other.updated_at@, self.updated_at@)
    }

    fn at_most(&self, other: &JobState) -> (yes: bool) {
        crate::text::at_most(other.updated_at.as_str(), self.updated_at.as_str())
    }

    proof fn ranks_total(a: &JobState, b: &JobState) {
        lemma_text_le_total(a.updated_at@, b.updated_at@);
    }

    proof fn ranks_transitive(a: &JobState, b: &JobState, c: &JobState) {
        lemma_text_le_trans(c.updated_at@, b.updated_at@, a.updated_at@);
    }
}

/// The states that were changed last come first.
pub fn order_states(states: Vec<JobState>) -> (sorted: Vec<JobState>)
    ensures
        sorted@ == crate::sort::stably_sorted(states@),
{
    crate::sort::stable_sort(states)
}

// ---------------------------------------------------------------------------
// What an event of a write changes
// ---------------------------------------------------------------------------

/// The phase of the job that an event of a write stands for. A write that has completed
/// is not the end: the cartridge may still have to be ejected.
pub open spec fn event_phase(event: WriteEvent) -> JobPhase {
    match event.phase {
        WritePhase::Preparing | WritePhase::WritingData => JobPhase::Running,
        WritePhase::FinalizingDataIndex | WritePhase::SyncingIndexPartition
        | WritePhase::UpdatingCoherency => JobPhase::Finalizing,
        WritePhase::Verifying => JobPhase::Verifying,
        WritePhase::Failed => if event.failure is Some && event.failure->0.cancelled {
            JobPhase::Cancelled
        } else {
            JobPhase::Failed
        },
        WritePhase::Completed => JobPhase::Finalizing,
    }
}

/// A job that was asked to stop stays so until it has ended.
pub open spec fn phase_after(phase: JobPhase, next: JobPhase) -> JobPhase {
    if phase is CancellationRequested && active(next) {
        phase
    } else {
        next
    }
}

/// What the event of a write makes of the progress.
pub open spec fn progress_after(before: JobProgress, event: WriteEvent, after: JobProgress) -> bool {
    let worst = match event.telemetry {
        Some(sample) => match worst_channel(sample.channel_rates@, sample.worst_rate) {
            Some((channel, key)) => if before.session_worst_channel_rate is None || key
                > before.session_worst_channel_rate->0 {
                (Some(channel), Some(key))
            } else {
                (before.session_worst_channel, before.session_worst_channel_rate)
            },
            None => (before.session_worst_channel, before.session_worst_channel_rate),
        },
        None => (before.session_worst_channel, before.session_worst_channel_rate),
    };
    let basic = JobProgress {
        current_item: event.current_file,
        items_completed: event.files_completed as u64,
        items_total: event.files_total as u64,
        bytes_completed: event.bytes_written,
        bytes_total: event.bytes_total,
        partition: event.partition,
        logical_block: event.logical_block,
        channel_rates: after.channel_rates,
        throughput_history: after.throughput_history,
        session_worst_channel: worst.0,
        session_worst_channel_rate: worst.1,
        ..before
    };
    let sampled = match event.telemetry {
        Some(sample) => JobProgress {
            worst_channel_rate: sample.worst_rate,
            telemetry_updated_at: Some(sample.timestamp),
            ..basic
        },
        None => basic,
    };
    let paced = match event.performance {
        Some(sample) => JobProgress {
            tape_bytes_per_second: Some(sample.tape_bytes_per_second),
            source_bytes_per_second: Some(sample.source_bytes_per_second),
            buffer_used_bytes: Some(sample.buffer_used_bytes),
            buffer_capacity_bytes: Some(sample.buffer_capacity_bytes),
            reader_waiting: sample.reader_waiting,
            writer_waiting: sample.writer_waiting,
            performance_updated_at: Some(sample.timestamp),
            ..sampled
        },
        None => sampled,
    };
    &&& after == paced
    &&& after.channel_rates@ == (match event.telemetry {
        Some(sample) => sample.channel_rates@,
        None => before.channel_rates@,
    })
    &&& after.throughput_history@ == (match event.performance {
        Some(sample) => recent(
            before.throughput_history@.push(
                JobThroughputSample {
                    timestamp: sample.timestamp,
                    bytes_per_second: sample.tape_bytes_per_second,
                },
            ),
            PERFORMANCE_HISTORY_CAPACITY as nat,
        ),
        None => before.throughput_history@,
    })
}

/// What the event of a write makes of what has been brought about.
pub open spec fn completion_after(before: JobCompletion, event: WriteEvent, read_back: bool) -> JobCompletion {
    let reported = if event.phase is Verifying {
        JobCompletion {
            index_committed: true,
            verification: VerificationStatus::Running,
            ..before
        }
    } else if event.phase is Completed && read_back {
        JobCompletion { verification: VerificationStatus::Passed, ..before }
    } else {
        before
    };
    if event.failure is Some && event.failure->0.commit_state is Committed {
        JobCompletion {
            index_committed: true,
            verification: if read_back {
                VerificationStatus::Failed
            } else {
                reported.verification
            },
            ..reported
        }
    } else {
        reported
    }
}

/// What the event of a write makes of a job.
pub open spec fn state_after(before: JobState, event: WriteEvent, timestamp: String, after: JobState) -> bool {
    &&& progress_after(before.progress, event, after.progress)
    &&& after.message@ == phase_name(event.phase)
    &&& after == (JobState {
        revision: saturating(before.revision as int, 1),
        updated_at: timestamp,
        phase: phase_after(before.phase, event_phase(event)),
        message: after.message,
        progress: after.progress,
        error: match event.failure {
            Some(f) => Some(f.message),
            None => before.error,
        },
        requires_diagnosis: match event.failure {
            Some(f) => f.requires_diagnosis,
            None => before.requires_diagnosis,
        },
        completion: completion_after(before.completion, event, before.spec.read_back_verify),
        ..before
    })
}

fn phase_of(event: &WriteEvent) -> (phase: JobPhase)
    ensures
        phase == event_phase(*event),
{
    match event.phase {
        WritePhase::Preparing => JobPhase::Running,
        WritePhase::WritingData => JobPhase::Running,
        WritePhase::FinalizingDataIndex => JobPhase::Finalizing,
        WritePhase::SyncingIndexPartition => JobPhase::Finalizing,
        WritePhase::UpdatingCoherency => JobPhase::Finalizing,
        WritePhase::Verifying => JobPhase::Verifying,
        WritePhase::Failed => {
            let cancelled = match &event.failure {
                Some(f) => f.cancelled,
                None => false,
            };
            if cancelled {
                JobPhase::Cancelled
            } else {
                JobPhase::Failed
            }
        },
        WritePhase::Completed => JobPhase::Finalizing,
    }
}

fn push_sample(list: &mut Vec<JobThroughputSample>, sample: JobThroughputSample)
    ensures
        final(list)@ == recent(old(list)@.push(sample), PERFORMANCE_HISTORY_CAPACITY as nat),
{
    let ghost all = list@.push(sample);
    list.push(sample);
    while list.len() > PERFORMANCE_HISTORY_CAPACITY
        invariant
            list@.len() <= all.len(),
            list@ == all.subrange(all.len() - list@.len(), all.len() as int),
            all.len() > PERFORMANCE_HISTORY_CAPACITY ==> list@.len()
                >= PERFORMANCE_HISTORY_CAPACITY,
            all.len() <= PERFORMANCE_HISTORY_CAPACITY ==> list@.len() == all.len(),
        decreases list@.len(),
    {
        let _ = list.remove(0);
        assert(list@ =~= all.subrange(all.len() - list@.len(), all.len() as int));
    }
    assert(list@ =~= recent(all, PERFORMANCE_HISTORY_CAPACITY as nat));
}

impl JobProgress {
    fn take_event(&mut self, event: &WriteEvent)
        ensures
            progress_after(*old(self), *event, *final(self)),
    {
        self.current_item = clone_opt(&event.current_file);
        self.items_completed = event.files_completed as u64;
        self.items_total = event.files_total as u64;
        self.bytes_completed = event.bytes_written;
        self.bytes_total = event.bytes_total;
        self.partition = event.partition;
        self.logical_block = event.logical_block;
        match &event.telemetry {
            Some(sample) => {
                self.worst_channel_rate = sample.worst_rate;
                self.channel_rates = copy_rates(&sample.channel_rates);
                self.telemetry_updated_at = Some(sample.timestamp.clone());
                match find_worst(&sample.channel_rates, sample.worst_rate) {
                    Some((channel, key)) => {
                        let higher = match self.session_worst_channel_rate {
                            Some(current) => key > current,
                            None => true,
                        };
                        if higher {
                            self.session_worst_channel = Some(channel);
                            self.session_worst_channel_rate = Some(key);
                        }
                    },
                    None => {},
                }
            },
            None => {},
        }
        match &event.performance {
            Some(sample) => {
                self.tape_bytes_per_second = Some(sample.tape_bytes_per_second);
                self.source_bytes_per_second = Some(sample.source_bytes_per_second);
                self.buffer_used_bytes = Some(sample.buffer_used_bytes);
                self.buffer_capacity_bytes = Some(sample.buffer_capacity_bytes);
                self.reader_waiting = sample.reader_waiting;
                self.writer_waiting = sample.writer_waiting;
                self.performance_updated_at = Some(sample.timestamp.clone());
                push_sample(
                    &mut self.throughput_history,
                    JobThroughputSample {
                        timestamp: sample.timestamp.clone(),
                        bytes_per_second: sample.tape_bytes_per_second,
                    },
                );
            },
            None => {},
        }
    }
}

impl JobCompletion {
    fn take_event(&mut self, event: &WriteEvent, read_back: bool)
        ensures
            *final(self) == completion_after(*old(self), *event, read_back),
    {
        if event.phase == WritePhase::Verifying {
            self.index_committed = true;
            self.verification = VerificationStatus::Running;
        } else if event.phase == WritePhase::Completed && read_back {
            self.verification = VerificationStatus::Passed;
        }
        match &event.failure {
            Some(failure) => {
                if failure.commit_state == WriteCommitState::Committed {
                    self.index_committed = true;
                    if read_back {
                        self.verification = VerificationStatus::Failed;
                    }
                }
            },
            None => {},
        }
    }
}

impl JobState {
    /// A job that waits for its runner.
    pub fn queued(spec: JobSpec) -> (result: Result<JobState, String>)
        ensures
            match result {
                Ok(state) => order_fault(spec) is None && state == (JobState {
                    protocol_version: PROTOCOL_VERSION,
                    revision: 1,
                    spec,
                    phase: JobPhase::Queued,
                    runner_pid: None,
                    updated_at: spec.created_at,
                    message: state.message,
                    progress: state.progress,
                    error: None,
                    requires_diagnosis: false,
                    completion: state.completion,
                }) && state.message@ == "等待 operation runner 启动"@ && no_progress(
                    state.progress,
                ) && nothing_done(state.completion),
                Err(message) => order_fault(spec) == Some(message@),
            },
    {
        match spec.validate() {
            Ok(_) => {},
            Err(message) => {
                return Err(message);
            },
        }
        Ok(
            JobState {
                protocol_version: PROTOCOL_VERSION,
                revision: 1,
                updated_at: spec.created_at.clone(),
                spec,
                phase: JobPhase::Queued,
                runner_pid: None,
                message: "等待 operation runner 启动".to_owned(),
                progress: JobProgress::default(),
                error: None,
                requires_diagnosis: false,
                completion: JobCompletion::default(),
            },
        )
    }

    /// Takes an event of the write that the job runs.
    pub fn apply_write_event(&mut self, event: &WriteEvent, timestamp: String)
        ensures
            state_after(*old(self), *event, timestamp, *final(self)),
    {
        self.revision = self.revision.saturating_add(1);
        self.updated_at = timestamp;
        let next_phase = phase_of(event);
        if self.phase != JobPhase::CancellationRequested || next_phase.is_terminal() {
            self.phase = next_phase;
        }
        self.message = event.phase.name().to_owned();
        self.progress.take_event(event);
        self.completion.take_event(event, self.spec.read_back_verify);
        match &event.failure {
            Some(failure) => {
                self.error = Some(failure.message.clone());
                self.requires_diagnosis = failure.requires_diagnosis;
            },
            None => {},
        }
    }

    /// The runner has started.
    pub fn start(&mut self, process: u32, now: String)
        ensures
            *final(self) == (JobState {
                revision: saturating(old(self).revision as int, 1),
                phase: JobPhase::Starting,
                runner_pid: Some(process),
                updated_at: now,
                message: final(self).message,
                ..*old(self)
            }),
            final(self).message@ == "operation runner 已启动，正在取得设备所有权"@,
    {
        self.revision = self.revision.saturating_add(1);
        self.phase = JobPhase::Starting;
        self.runner_pid = Some(process);
        self.updated_at = now;
        self.message = "operation runner 已启动，正在取得设备所有权".to_owned();
    }

    /// The runner has failed, or was stopped. A write that has written something has to
    /// be looked at.
    pub fn fail(&mut self, error: &str, stop_requested: bool, now: String)
        ensures
            ({
                let cancelled = contains_spec(error@, "[cancelled]"@) || stop_requested;
                &&& *final(self) == (JobState {
                    revision: saturating(old(self).revision as int, 1),
                    updated_at: now,
                    phase: if cancelled {
                        JobPhase::Cancelled
                    } else {
                        JobPhase::Failed
                    },
                    message: final(self).message,
                    error: final(self).error,
                    requires_diagnosis: old(self).requires_diagnosis || (
                    old(self).spec.operation is Write && old(self).progress.bytes_completed > 0),
                    ..*old(self)
                })
                &&& final(self).message@ == (if cancelled {
                    "operation 已在安全边界取消"@
                } else {
                    "operation runner 失败"@
                })
                &&& final(self).error is Some
                &&& final(self).error->0@ == replaced_spec(error@, "[cancelled]"@, ""@)
            }),
    {
        proof {
            reveal_strlit("[cancelled]");
        }
        let cancelled = contains(error, "[cancelled]") || stop_requested;
        self.revision = self.revision.saturating_add(1);
        self.updated_at = now;
        self.phase = if cancelled {
            JobPhase::Cancelled
        } else {
            JobPhase::Failed
        };
        self.message = if cancelled {
            "operation 已在安全边界取消".to_owned()
        } else {
            "operation runner 失败".to_owned()
        };
        self.error = Some(replace(error, "[cancelled]", ""));
        if self.spec.operation == OperationKind::Write && self.progress.bytes_completed > 0 {
            self.requires_diagnosis = true;
        }
    }

    /// Asks the job to stop, where it is still to do something.
    pub fn ask_to_stop(&mut self, now: String)
        ensures
            if active(old(self).phase) && !(old(self).phase is CancellationRequested) {
                *final(self) == (JobState {
                    revision: saturating(old(self).revision as int, 1),
                    updated_at: now,
                    phase: JobPhase::CancellationRequested,
                    message: final(self).message,
                    ..*old(self)
                }) && final(self).message@ == "已请求取消，等待 Application 安全停止点"@
            } else {
                *final(self) == *old(self)
            },
    {
        if self.phase.is_active() && self.phase != JobPhase::CancellationRequested {
            self.revision = self.revision.saturating_add(1);
            self.updated_at = now;
            self.phase = JobPhase::CancellationRequested;
            self.message = "已请求取消，等待 Application 安全停止点".to_owned();
        }
    }

    /// The progress of a read.
    pub fn apply_read_event(&mut self, event: &ReadEvent, now: String)
        ensures
            *final(self) == (JobState {
                revision: saturating(old(self).revision as int, 1),
                updated_at: now,
                progress: JobProgress {
                    current_item: Some(event.tape_path),
                    items_total: 1,
                    bytes_completed: event.bytes_read,
                    bytes_total: event.bytes_total,
                    partition: event.partition,
                    logical_block: event.logical_block,
                    ..old(self).progress
                },
                ..*old(self)
            }),
    {
        self.revision = self.revision.saturating_add(1);
        self.updated_at = now;
        self.progress.current_item = Some(event.tape_path.clone());
        self.progress.items_total = 1;
        self.progress.bytes_completed = event.bytes_read;
        self.progress.bytes_total = event.bytes_total;
        self.progress.partition = event.partition;
        self.progress.logical_block = event.logical_block;
    }
}

/// What becomes of a job once it is known whether its runner is alive.
pub open spec fn reconciled(state: JobState, runner_alive: bool, now: String, after: JobState) -> bool {
    if active(state.phase) && state.runner_pid is Some && !runner_alive {
        after == (JobState {
            revision: saturating(state.revision as int, 1),
            phase: JobPhase::Interrupted,
            updated_at: now,
            message: after.message,
            error: after.error,
            requires_diagnosis: state.spec.operation is Write,
            ..state
        }) && after.message@ == "runner 已消失；禁止自动续写，必须检查 operation 结果"@
            && after.error is Some && after.error->0@
            == "detached operation runner terminated unexpectedly"@
    } else {
        after == state
    }
}

/// A job whose runner is gone: nothing is taken up again, and a write has to be looked
/// at. `runner_alive` says whether the process of the runner still exists.
pub fn reconcile_interrupted(state: JobState, runner_alive: bool, now: String) -> (after: JobState)
    ensures
        reconciled(state, runner_alive, now, after),
{
    let mut after = state;
    if after.phase.is_active() && after.runner_pid.is_some() && !runner_alive {
        after.revision = after.revision.saturating_add(1);
        after.phase = JobPhase::Interrupted;
        after.updated_at = now;
        after.message = "runner 已消失；禁止自动续写，必须检查 operation 结果".to_owned();
        after.error = Some("detached operation runner terminated unexpectedly".to_owned());
        after.requires_diagnosis = after.spec.operation == OperationKind::Write;
    }
    after
}

// ---------------------------------------------------------------------------
// Laws
// ---------------------------------------------------------------------------

/// A job that was asked to stop shows that until it has ended, whatever the write reports
/// meanwhile.
pub proof fn stop_request_survives_events(before: JobState, event: WriteEvent, timestamp: String, after: JobState)
    requires
        state_after(before, event, timestamp, after),
        before.phase is CancellationRequested,
    ensures
        after.phase is CancellationRequested || !active(after.phase),
        active(event_phase(event)) ==> after.phase is CancellationRequested,
{
}

/// No event of a write completes a job: that is left to the runner.
pub proof fn events_complete_no_job(before: JobState, event: WriteEvent, timestamp: String, after: JobState)
    requires
        state_after(before, event, timestamp, after),
    ensures
        !(after.phase is Completed),
        !(after.phase is Interrupted),
{
}

/// A job that was found interrupted stays so: looking again changes nothing.
pub proof fn interrupted_job_stays_so(
    before: JobState,
    now: String,
    once: JobState,
    alive: bool,
    later: String,
    twice: JobState,
)
    requires
        reconciled(before, false, now, once),
        before.runner_pid is Some,
        reconciled(once, alive, later, twice),
    ensures
        twice == once,
        !active(once.phase),
{
}

/// Every event of a write gives the job a new revision, so that whoever waits for a change
/// of the old one learns of it.
pub proof fn events_give_new_revisions(before: JobState, event: WriteEvent, timestamp: String, after: JobState)
    requires
        state_after(before, event, timestamp, after),
        before.revision < u64::MAX,
    ensures
        after.revision == before.revision + 1,
{
}

/// The history of the throughput stays within its bound, and ends with the newest sample.
pub proof fn history_is_bounded(before: JobState, event: WriteEvent, timestamp: String, after: JobState)
    requires
        state_after(before, event, timestamp, after),
        before.progress.throughput_history@.len() <= PERFORMANCE_HISTORY_CAPACITY,
    ensures
        after.progress.throughput_history@.len() <= PERFORMANCE_HISTORY_CAPACITY,
        event.performance is Some ==> after.progress.throughput_history@.len() > 0
            && after.progress.throughput_history@.last().timestamp
            == event.performance->0.timestamp,
{
}

} // verus!
