//! What is known of a write while it runs: options, progress, events, and what a failure
//! means for the volume.
use vstd::prelude::*;
use vstd::string::*;

use super::source::WritePlanExpectation;
use crate::device::channel_error::ChannelRate;
use crate::text::{
    cat2, cat3, cat4, cat6, clone_opt, contains, contains_spec, decimal, decimal_spec, opt_view,
    replace, replaced_spec, same,
};

verus! {

/// The bits of a 64-bit floating point number.
pub type FloatBits = u64;

// ---------------------------------------------------------------------------
// Options
// ---------------------------------------------------------------------------

/// How a write is verified.
#[derive(Debug, Clone, Copy, PartialEq, Eq, Structural)]
pub enum WriteVerification {
    Off,
    /// Once both indexes and the VCI are committed, the data is read back and its SHA-256
    /// compared.
    ReadBackSha256,
}

impl Default for WriteVerification {
    fn default() -> (v: WriteVerification)
        ensures
            v == WriteVerification::Off,
    {
        WriteVerification::Off
    }
}

/// The points at which a write can be stopped.
#[derive(Debug, Clone, Copy, PartialEq, Eq, Structural)]
pub enum WriteFailpoint {
    AfterFirstDataRecord,
    AfterDataIndex,
    AfterIndexes,
    AfterFirstVci,
    BeforeVerify,
}

/// The name of a point.
pub open spec fn failpoint_name(point: WriteFailpoint) -> Seq<char> {
    match point {
        WriteFailpoint::AfterFirstDataRecord => "AfterFirstDataRecord"@,
        WriteFailpoint::AfterDataIndex => "AfterDataIndex"@,
        WriteFailpoint::AfterIndexes => "AfterIndexes"@,
        WriteFailpoint::AfterFirstVci => "AfterFirstVci"@,
        WriteFailpoint::BeforeVerify => "BeforeVerify"@,
    }
}

/// The point that a name on the command line stands for.
pub open spec fn failpoint_spec(value: Seq<char>) -> Option<WriteFailpoint> {
    if value == "after-first-data-record"@ {
        Some(WriteFailpoint::AfterFirstDataRecord)
    } else if value == "after-data-index"@ {
        Some(WriteFailpoint::AfterDataIndex)
    } else if value == "after-indexes"@ {
        Some(WriteFailpoint::AfterIndexes)
    } else if value == "after-first-vci"@ {
        Some(WriteFailpoint::AfterFirstVci)
    } else if value == "before-verify"@ {
        Some(WriteFailpoint::BeforeVerify)
    } else {
        None
    }
}

impl WriteFailpoint {
    /// The point that a name on the command line stands for.
    pub fn parse(value: &str) -> (result: Result<WriteFailpoint, String>)
        ensures
            match result {
                Ok(point) => failpoint_spec(value@) == Some(point),
                Err(message) => failpoint_spec(value@) is None && message@
                    == "未知 write failpoint: "@ + value@,
            },
    {
        if same(value, "after-first-data-record") {
            Ok(WriteFailpoint::AfterFirstDataRecord)
        } else if same(value, "after-data-index") {
            Ok(WriteFailpoint::AfterDataIndex)
        } else if same(value, "after-indexes") {
            Ok(WriteFailpoint::AfterIndexes)
        } else if same(value, "after-first-vci") {
            Ok(WriteFailpoint::AfterFirstVci)
        } else if same(value, "before-verify") {
            Ok(WriteFailpoint::BeforeVerify)
        } else {
            Err(cat2("未知 write failpoint: ", value))
        }
    }

    fn name(self) -> (name: &'static str)
        ensures
            name@ == failpoint_name(self),
    {
        match self {
            WriteFailpoint::AfterFirstDataRecord => "AfterFirstDataRecord",
            WriteFailpoint::AfterDataIndex => "AfterDataIndex",
            WriteFailpoint::AfterIndexes => "AfterIndexes",
            WriteFailpoint::AfterFirstVci => "AfterFirstVci",
            WriteFailpoint::BeforeVerify => "BeforeVerify",
        }
    }
}

/// What an operation knows of the request to stop it. The token belongs to its operation
/// and is not shared: whoever may ask from elsewhere holds a flag, and the operation is
/// told with each step whether the flag is up. Once asked, an operation stays asked.
#[derive(Debug, PartialEq, Eq, Structural)]
pub struct CancellationToken {
    pub requested: bool,
}

impl Default for CancellationToken {
    fn default() -> (token: CancellationToken)
        ensures
            !token.requested,
    {
        CancellationToken { requested: false }
    }
}

impl CancellationToken {
    pub fn request_cancel(&mut self)
        ensures
            final(self).requested,
    {
        self.requested = true;
    }

    pub fn is_cancelled(&self) -> (yes: bool)
        ensures
            yes == self.requested,
    {
        self.requested
    }
}

/// The options of a write.
#[derive(Debug, PartialEq, Eq, Structural)]
pub struct WriteOptions {
    pub verification: WriteVerification,
    /// What the source held when the write was confirmed.
    pub expected_source: Option<WritePlanExpectation>,
    /// Where the write stops, for tests.
    pub failpoint: Option<WriteFailpoint>,
    pub cancellation: Option<CancellationToken>,
    /// Where the write cancels itself, for tests.
    pub cancelpoint: Option<WriteFailpoint>,
}

impl Default for WriteOptions {
    fn default() -> (options: WriteOptions)
        ensures
            options == (WriteOptions {
                verification: WriteVerification::Off,
                expected_source: None,
                failpoint: None,
                cancellation: None,
                cancelpoint: None,
            }),
    {
        WriteOptions {
            verification: WriteVerification::Off,
            expected_source: None,
            failpoint: None,
            cancellation: None,
            cancelpoint: None,
        }
    }
}

impl WriteOptions {
    /// Whether the write has been asked to stop.
    pub fn asked_to_stop(&self) -> (yes: bool)
        ensures
            yes == is_cancelled(*self),
    {
        match &self.cancellation {
            Some(token) => token.is_cancelled(),
            None => false,
        }
    }

    /// The options as they stand, for another step of the same write.
    pub(crate) fn handed_on(&self) -> (options: WriteOptions)
        ensures
            options == *self,
    {
        WriteOptions {
            verification: self.verification,
            expected_source: self.expected_source,
            failpoint: self.failpoint,
            cancellation: match &self.cancellation {
                Some(token) => Some(CancellationToken { requested: token.requested }),
                None => None,
            },
            cancelpoint: self.cancelpoint,
        }
    }
}

/// The options at a point: a write that is to cancel itself there asks to be stopped.
pub open spec fn options_at(options: WriteOptions, point: WriteFailpoint) -> WriteOptions {
    if options.cancelpoint == Some(point) && options.cancellation is Some {
        WriteOptions { cancellation: Some(CancellationToken { requested: true }), ..options }
    } else {
        options
    }
}

pub open spec fn is_cancelled(options: WriteOptions) -> bool {
    match options.cancellation {
        Some(token) => token.requested,
        None => false,
    }
}

/// Why a write stops at a point: it was asked to, or it is to stop there.
pub open spec fn stop_spec(options: WriteOptions, point: WriteFailpoint) -> Option<Seq<char>> {
    if is_cancelled(options_at(options, point)) {
        Some("[cancelled]用户在安全边界 "@ + failpoint_name(point) + " 请求取消"@)
    } else if options.failpoint == Some(point) {
        Some(
            (if point is AfterFirstVci {
                "[state:C4]"@
            } else {
                ""@
            }) + "测试 failpoint：在安全边界 "@ + failpoint_name(point) + " 停止"@,
        )
    } else {
        None
    }
}

/// Whether a write goes on at a point.
pub fn check_write_stop(options: &mut WriteOptions, point: WriteFailpoint) -> (result: Result<
    (),
    String,
>)
    ensures
        *final(options) == options_at(*old(options), point),
        match result {
            Ok(_) => stop_spec(*old(options), point) is None,
            Err(message) => stop_spec(*old(options), point) == Some(message@),
        },
{
    if options.cancelpoint == Some(point) {
        if options.cancellation.is_some() {
            let mut asked = CancellationToken::default();
            asked.request_cancel();
            options.cancellation = Some(asked);
        }
    }
    let cancelled = options.asked_to_stop();
    if cancelled {
        return Err(cat3("[cancelled]用户在安全边界 ", point.name(), " 请求取消"));
    }
    if options.failpoint == Some(point) {
        let marker = if point == WriteFailpoint::AfterFirstVci { "[state:C4]" } else { "" };
        return Err(cat4(marker, "测试 failpoint：在安全边界 ", point.name(), " 停止"));
    }
    Ok(())
}

/// A write that has been asked to stop stays asked: no point takes the request back.
pub proof fn stop_request_is_kept(options: WriteOptions, point: WriteFailpoint)
    requires
        is_cancelled(options),
    ensures
        is_cancelled(options_at(options, point)),
        stop_spec(options, point) is Some,
{
}

// ---------------------------------------------------------------------------
// Events
// ---------------------------------------------------------------------------

#[derive(Debug, Clone, Copy, PartialEq, Eq, Structural)]
pub enum WritePhase {
    Preparing,
    WritingData,
    FinalizingDataIndex,
    SyncingIndexPartition,
    UpdatingCoherency,
    Verifying,
    Failed,
    Completed,
}

/// The name of a phase.
pub open spec fn phase_name(phase: WritePhase) -> Seq<char> {
    match phase {
        WritePhase::Preparing => "Preparing"@,
        WritePhase::WritingData => "WritingData"@,
        WritePhase::FinalizingDataIndex => "FinalizingDataIndex"@,
        WritePhase::SyncingIndexPartition => "SyncingIndexPartition"@,
        WritePhase::UpdatingCoherency => "UpdatingCoherency"@,
        WritePhase::Verifying => "Verifying"@,
        WritePhase::Failed => "Failed"@,
        WritePhase::Completed => "Completed"@,
    }
}

impl WritePhase {
    pub fn name(self) -> (name: &'static str)
        ensures
            name@ == phase_name(self),
    {
        match self {
            WritePhase::Preparing => "Preparing",
            WritePhase::WritingData => "WritingData",
            WritePhase::FinalizingDataIndex => "FinalizingDataIndex",
            WritePhase::SyncingIndexPartition => "SyncingIndexPartition",
            WritePhase::UpdatingCoherency => "UpdatingCoherency",
            WritePhase::Verifying => "Verifying",
            WritePhase::Failed => "Failed",
            WritePhase::Completed => "Completed",
        }
    }
}

/// How far a volume is changed when a write stops.
#[derive(Debug, Clone, Copy, PartialEq, Eq, Structural)]
pub enum WriteCommitState {
    NotStarted,
    DataIncomplete,
    DataIndexOnly,
    IndexesWritten,
    CoherencyPartial,
    Committed,
}

impl Default for WriteCommitState {
    fn default() -> (s: WriteCommitState)
        ensures
            s == WriteCommitState::NotStarted,
    {
        WriteCommitState::NotStarted
    }
}

/// The name of a state.
pub open spec fn commit_name(state: WriteCommitState) -> Seq<char> {
    match state {
        WriteCommitState::NotStarted => "NotStarted"@,
        WriteCommitState::DataIncomplete => "DataIncomplete"@,
        WriteCommitState::DataIndexOnly => "DataIndexOnly"@,
        WriteCommitState::IndexesWritten => "IndexesWritten"@,
        WriteCommitState::CoherencyPartial => "CoherencyPartial"@,
        WriteCommitState::Committed => "Committed"@,
    }
}

impl WriteCommitState {
    pub fn name(self) -> (name: &'static str)
        ensures
            name@ == commit_name(self),
    {
        match self {
            WriteCommitState::NotStarted => "NotStarted",
            WriteCommitState::DataIncomplete => "DataIncomplete",
            WriteCommitState::DataIndexOnly => "DataIndexOnly",
            WriteCommitState::IndexesWritten => "IndexesWritten",
            WriteCommitState::CoherencyPartial => "CoherencyPartial",
            WriteCommitState::Committed => "Committed",
        }
    }
}

/// Why a write failed, and what that means.
#[derive(Debug, PartialEq, Eq)]
pub struct WriteFailure {
    pub phase: WritePhase,
    pub commit_state: WriteCommitState,
    pub message: String,
    pub current_file: Option<String>,
    pub files_completed: usize,
    pub bytes_written: u64,
    pub partition: Option<u8>,
    pub logical_block: Option<u64>,
    pub safe_to_retry: bool,
    pub requires_diagnosis: bool,
    pub cancelled: bool,
}

impl Clone for WriteFailure {
    fn clone(&self) -> (copy: WriteFailure)
        ensures
            copy == *self,
    {
        WriteFailure {
            phase: self.phase,
            commit_state: self.commit_state,
            message: self.message.clone(),
            current_file: clone_opt(&self.current_file),
            files_completed: self.files_completed,
            bytes_written: self.bytes_written,
            partition: self.partition,
            logical_block: self.logical_block,
            safe_to_retry: self.safe_to_retry,
            requires_diagnosis: self.requires_diagnosis,
            cancelled: self.cancelled,
        }
    }
}

/// The model of a failure.
#[verifier::ext_equal]
pub struct FailureModel {
    pub phase: WritePhase,
    pub commit_state: WriteCommitState,
    pub message: Seq<char>,
    pub current_file: Option<Seq<char>>,
    pub files_completed: usize,
    pub bytes_written: u64,
    pub partition: Option<u8>,
    pub logical_block: Option<u64>,
    pub safe_to_retry: bool,
    pub requires_diagnosis: bool,
    pub cancelled: bool,
}

impl View for WriteFailure {
    type V = FailureModel;

    open spec fn view(&self) -> FailureModel {
        FailureModel {
            phase: self.phase,
            commit_state: self.commit_state,
            message: self.message@,
            current_file: opt_view(self.current_file),
            files_completed: self.files_completed,
            bytes_written: self.bytes_written,
            partition: self.partition,
            logical_block: self.logical_block,
            safe_to_retry: self.safe_to_retry,
            requires_diagnosis: self.requires_diagnosis,
            cancelled: self.cancelled,
        }
    }
}

/// A failure in words.
pub open spec fn failure_text(f: FailureModel) -> Seq<char> {
    let head = f.message + " [phase="@ + phase_name(f.phase) + ", commit="@ + commit_name(
        f.commit_state,
    ) + ", bytes="@ + decimal_spec(f.bytes_written as nat);
    match (f.partition, f.logical_block) {
        (Some(partition), Some(block)) => head + (", position=p"@ + decimal_spec(partition as nat)
            + "b"@ + decimal_spec(block as nat)) + "]"@,
        _ => head + "]"@,
    }
}

impl WriteFailure {
    /// The failure in words.
    pub fn text(&self) -> (text: String)
        ensures
            text@ == failure_text(self@),
    {
        let mut text = cat6(
            self.message.as_str(),
            " [phase=",
            self.phase.name(),
            ", commit=",
            self.commit_state.name(),
            ", bytes=",
        );
        text.append(decimal(self.bytes_written).as_str());
        match (self.partition, self.logical_block) {
            (Some(partition), Some(block)) => {
                text.append(
                    cat4(
                        ", position=p",
                        decimal(partition as u64).as_str(),
                        "b",
                        decimal(block).as_str(),
                    ).as_str(),
                );
            },
            _ => {},
        }
        text.append("]");
        text
    }
}

/// A sample of the channel error rates; rates by their ordering keys.
#[derive(Debug, PartialEq, Eq)]
pub struct ChannelTelemetrySample {
    pub elapsed_millis: u64,
    pub timestamp: String,
    pub partition: u8,
    pub logical_block: u64,
    /// The payload throughput since the last sample, in bytes per second.
    pub throughput_bytes_per_second: FloatBits,
    pub channel_rates: Vec<ChannelRate>,
    pub worst_rate: Option<i64>,
}

fn copy_rates(rates: &Vec<ChannelRate>) -> (copy: Vec<ChannelRate>)
    ensures
        copy@ == rates@,
{
    let mut copy: Vec<ChannelRate> = Vec::new();
    let mut i: usize = 0;
    while i < rates.len()
        invariant
            i <= rates@.len(),
            copy@ == rates@.subrange(0, i as int),
        decreases rates@.len() - i,
    {
        copy.push(rates[i]);
        i = i + 1;
        assert(copy@ =~= rates@.subrange(0, i as int));
    }
    assert(copy@ =~= rates@);
    copy
}

/// The model of a sample.
#[verifier::ext_equal]
pub struct SampleModel {
    pub elapsed_millis: u64,
    pub timestamp: Seq<char>,
    pub partition: u8,
    pub logical_block: u64,
    pub throughput_bytes_per_second: FloatBits,
    pub channel_rates: Seq<ChannelRate>,
    pub worst_rate: Option<i64>,
}

impl View for ChannelTelemetrySample {
    type V = SampleModel;

    open spec fn view(&self) -> SampleModel {
        SampleModel {
            elapsed_millis: self.elapsed_millis,
            timestamp: self.timestamp@,
            partition: self.partition,
            logical_block: self.logical_block,
            throughput_bytes_per_second: self.throughput_bytes_per_second,
            channel_rates: self.channel_rates@,
            worst_rate: self.worst_rate,
        }
    }
}

impl Clone for ChannelTelemetrySample {
    fn clone(&self) -> (copy: ChannelTelemetrySample)
        ensures
            copy@ == self@,
    {
        ChannelTelemetrySample {
            elapsed_millis: self.elapsed_millis,
            timestamp: self.timestamp.clone(),
            partition: self.partition,
            logical_block: self.logical_block,
            throughput_bytes_per_second: self.throughput_bytes_per_second,
            channel_rates: copy_rates(&self.channel_rates),
            worst_rate: self.worst_rate,
        }
    }
}

/// A sample of how fast data comes and goes.
#[derive(Debug, PartialEq, Eq)]
pub struct WritePerformanceSample {
    pub timestamp: String,
    pub source_bytes_per_second: FloatBits,
    pub tape_bytes_per_second: FloatBits,
    pub buffer_used_bytes: u64,
    pub buffer_capacity_bytes: u64,
    pub reader_waiting: bool,
    pub writer_waiting: bool,
}

impl Clone for WritePerformanceSample {
    fn clone(&self) -> (copy: WritePerformanceSample)
        ensures
            copy == *self,
    {
        WritePerformanceSample {
            timestamp: self.timestamp.clone(),
            source_bytes_per_second: self.source_bytes_per_second,
            tape_bytes_per_second: self.tape_bytes_per_second,
            buffer_used_bytes: self.buffer_used_bytes,
            buffer_capacity_bytes: self.buffer_capacity_bytes,
            reader_waiting: self.reader_waiting,
            writer_waiting: self.writer_waiting,
        }
    }
}

/// What is reported while a write runs.
#[derive(Debug, PartialEq, Eq)]
pub struct WriteEvent {
    pub phase: WritePhase,
    pub current_file: Option<String>,
    pub files_completed: usize,
    pub files_total: usize,
    pub bytes_written: u64,
    pub bytes_total: u64,
    pub partition: Option<u8>,
    pub logical_block: Option<u64>,
    pub telemetry: Option<ChannelTelemetrySample>,
    pub performance: Option<WritePerformanceSample>,
    pub failure: Option<WriteFailure>,
}

/// The model of an event.
#[verifier::ext_equal]
pub struct EventModel {
    pub phase: WritePhase,
    pub current_file: Option<Seq<char>>,
    pub files_completed: usize,
    pub files_total: usize,
    pub bytes_written: u64,
    pub bytes_total: u64,
    pub partition: Option<u8>,
    pub logical_block: Option<u64>,
    pub telemetry: Option<SampleModel>,
    pub performance: Option<WritePerformanceSample>,
    pub failure: Option<FailureModel>,
}

pub open spec fn opt_sample(s: Option<ChannelTelemetrySample>) -> Option<SampleModel> {
    match s {
        Some(sample) => Some(sample@),
        None => None,
    }
}

pub open spec fn opt_failure(f: Option<WriteFailure>) -> Option<FailureModel> {
    match f {
        Some(failure) => Some(failure@),
        None => None,
    }
}

impl View for WriteEvent {
    type V = EventModel;

    open spec fn view(&self) -> EventModel {
        EventModel {
            phase: self.phase,
            current_file: opt_view(self.current_file),
            files_completed: self.files_completed,
            files_total: self.files_total,
            bytes_written: self.bytes_written,
            bytes_total: self.bytes_total,
            partition: self.partition,
            logical_block: self.logical_block,
            telemetry: opt_sample(self.telemetry),
            performance: self.performance,
            failure: opt_failure(self.failure),
        }
    }
}

impl Clone for WriteEvent {
    fn clone(&self) -> (copy: WriteEvent)
        ensures
            copy@ == self@,
    {
        WriteEvent {
            phase: self.phase,
            current_file: clone_opt(&self.current_file),
            files_completed: self.files_completed,
            files_total: self.files_total,
            bytes_written: self.bytes_written,
            bytes_total: self.bytes_total,
            partition: self.partition,
            logical_block: self.logical_block,
            telemetry: match &self.telemetry {
                Some(sample) => Some(sample.clone()),
                None => None,
            },
            performance: match &self.performance {
                Some(sample) => Some(sample.clone()),
                None => None,
            },
            failure: match &self.failure {
                Some(failure) => Some(failure.clone()),
                None => None,
            },
        }
    }
}

/// How far a write is.
#[derive(Debug, Clone, Copy, PartialEq, Eq, Structural)]
pub struct WriteProgress {
    pub files_total: usize,
    pub bytes_total: u64,
    pub files_completed: usize,
    pub bytes_written: u64,
    pub partition: Option<u8>,
    pub logical_block: Option<u64>,
}

/// The event that reports the progress.
pub open spec fn progress_event(
    p: WriteProgress,
    phase: WritePhase,
    current_file: Option<Seq<char>>,
) -> EventModel {
    EventModel {
        phase,
        current_file,
        files_completed: p.files_completed,
        files_total: p.files_total,
        bytes_written: p.bytes_written,
        bytes_total: p.bytes_total,
        partition: p.partition,
        logical_block: p.logical_block,
        telemetry: None,
        performance: None,
        failure: None,
    }
}

impl WriteProgress {
    /// The event that reports the progress.
    pub fn event(&self, phase: WritePhase, current_file: Option<String>) -> (event: WriteEvent)
        ensures
            event@ == progress_event(*self, phase, opt_view(current_file)),
    {
        WriteEvent {
            phase,
            current_file,
            files_completed: self.files_completed,
            files_total: self.files_total,
            bytes_written: self.bytes_written,
            bytes_total: self.bytes_total,
            partition: self.partition,
            logical_block: self.logical_block,
            telemetry: None,
            performance: None,
            failure: None,
        }
    }

    /// The event that reports the progress with a sample of the channels.
    pub fn event_with_telemetry(
        &self,
        phase: WritePhase,
        current_file: Option<String>,
        telemetry: ChannelTelemetrySample,
    ) -> (event: WriteEvent)
        ensures
            event@ == (EventModel {
                telemetry: Some(telemetry@),
                ..progress_event(*self, phase, opt_view(current_file))
            }),
    {
        let mut event = self.event(phase, current_file);
        event.telemetry = Some(telemetry);
        event
    }

    /// The event that reports the progress with a sample of the throughput.
    pub fn event_with_performance(
        &self,
        phase: WritePhase,
        current_file: Option<String>,
        performance: WritePerformanceSample,
    ) -> (event: WriteEvent)
        ensures
            event@ == (EventModel {
                performance: Some(performance),
                ..progress_event(*self, phase, opt_view(current_file))
            }),
    {
        let mut event = self.event(phase, current_file);
        event.performance = Some(performance);
        event
    }
}

// ---------------------------------------------------------------------------
// Failures
// ---------------------------------------------------------------------------

/// How far the volume is changed, from the last event and the message.
pub open spec fn commit_state_spec(last: Option<EventModel>, message: Seq<char>) -> WriteCommitState {
    if contains_spec(message, "[state:C4]"@) {
        WriteCommitState::CoherencyPartial
    } else {
        match last {
            None => WriteCommitState::NotStarted,
            Some(event) => match event.phase {
                WritePhase::Preparing => WriteCommitState::NotStarted,
                WritePhase::WritingData => if event.bytes_written == 0 {
                    WriteCommitState::NotStarted
                } else {
                    WriteCommitState::DataIncomplete
                },
                WritePhase::FinalizingDataIndex => WriteCommitState::DataIncomplete,
                WritePhase::SyncingIndexPartition => WriteCommitState::DataIndexOnly,
                WritePhase::UpdatingCoherency => WriteCommitState::IndexesWritten,
                WritePhase::Verifying => WriteCommitState::Committed,
                WritePhase::Completed => WriteCommitState::Committed,
                WritePhase::Failed => WriteCommitState::NotStarted,
            },
        }
    }
}

/// The volume has to be diagnosed before it is written again.
pub open spec fn diagnosis_spec(state: WriteCommitState, message: Seq<char>) -> bool {
    ||| state is DataIncomplete
    ||| state is DataIndexOnly
    ||| state is IndexesWritten
    ||| state is CoherencyPartial
    ||| contains_spec(message, "不一致"@)
    ||| contains_spec(message, "coherency"@)
}

/// What a failure means, from the last event and the message.
pub open spec fn failure_spec(last: Option<EventModel>, message: Seq<char>) -> FailureModel {
    let state = commit_state_spec(last, message);
    let diagnose = diagnosis_spec(state, message);
    FailureModel {
        phase: match last {
            Some(event) => event.phase,
            None => WritePhase::Preparing,
        },
        commit_state: state,
        message: replaced_spec(replaced_spec(message, "[state:C4]"@, ""@), "[cancelled]"@, ""@),
        current_file: match last {
            Some(event) => event.current_file,
            None => None,
        },
        files_completed: match last {
            Some(event) => event.files_completed,
            None => 0,
        },
        bytes_written: match last {
            Some(event) => event.bytes_written,
            None => 0,
        },
        partition: match last {
            Some(event) => event.partition,
            None => None,
        },
        logical_block: match last {
            Some(event) => event.logical_block,
            None => None,
        },
        safe_to_retry: state is NotStarted && !diagnose,
        requires_diagnosis: diagnose,
        cancelled: contains_spec(message, "[cancelled]"@),
    }
}

pub open spec fn opt_event(event: Option<&WriteEvent>) -> Option<EventModel> {
    match event {
        Some(e) => Some(e@),
        None => None,
    }
}

/// What a failure means.
pub fn classify_write_failure(last: Option<&WriteEvent>, message: String) -> (failure: WriteFailure)
    ensures
        failure@ == failure_spec(opt_event(last), message@),
{
    proof {
        reveal_strlit("[state:C4]");
        reveal_strlit("[cancelled]");
        reveal_strlit("不一致");
        reveal_strlit("coherency");
    }
    let text = message.as_str();
    let phase = match last {
        Some(event) => event.phase,
        None => WritePhase::Preparing,
    };
    let bytes_written: u64 = match last {
        Some(event) => event.bytes_written,
        None => 0,
    };
    let commit_state = if contains(text, "[state:C4]") {
        WriteCommitState::CoherencyPartial
    } else {
        match phase {
            WritePhase::Preparing => WriteCommitState::NotStarted,
            WritePhase::WritingData => if bytes_written == 0 {
                WriteCommitState::NotStarted
            } else {
                WriteCommitState::DataIncomplete
            },
            WritePhase::FinalizingDataIndex => WriteCommitState::DataIncomplete,
            WritePhase::SyncingIndexPartition => WriteCommitState::DataIndexOnly,
            WritePhase::UpdatingCoherency => WriteCommitState::IndexesWritten,
            WritePhase::Verifying => WriteCommitState::Committed,
            WritePhase::Completed => WriteCommitState::Committed,
            WritePhase::Failed => WriteCommitState::NotStarted,
        }
    };
    let requires_diagnosis = commit_state == WriteCommitState::DataIncomplete || commit_state
        == WriteCommitState::DataIndexOnly || commit_state == WriteCommitState::IndexesWritten
        || commit_state == WriteCommitState::CoherencyPartial || contains(text, "不一致")
        || contains(text, "coherency");
    let plain = replace(replace(text, "[state:C4]", "").as_str(), "[cancelled]", "");
    let (current_file, files_completed, partition, logical_block) = match last {
        Some(event) => (
            clone_opt(&event.current_file),
            event.files_completed,
            event.partition,
            event.logical_block,
        ),
        None => (None, 0, None, None),
    };
    WriteFailure {
        phase,
        commit_state,
        message: plain,
        current_file,
        files_completed,
        bytes_written,
        partition,
        logical_block,
        safe_to_retry: commit_state == WriteCommitState::NotStarted && !requires_diagnosis,
        requires_diagnosis,
        cancelled: contains(text, "[cancelled]"),
    }
}

/// The event that reports a failure.
pub open spec fn failure_report(last: Option<EventModel>, failure: FailureModel) -> EventModel {
    EventModel {
        phase: WritePhase::Failed,
        current_file: failure.current_file,
        files_completed: failure.files_completed,
        files_total: match last {
            Some(e) => e.files_total,
            None => 0,
        },
        bytes_written: failure.bytes_written,
        bytes_total: match last {
            Some(e) => e.bytes_total,
            None => 0,
        },
        partition: failure.partition,
        logical_block: failure.logical_block,
        telemetry: None,
        performance: None,
        failure: Some(failure),
    }
}

/// The event that reports a failure.
pub fn failure_event(last: Option<&WriteEvent>, failure: &WriteFailure) -> (event: WriteEvent)
    ensures
        event@ == failure_report(opt_event(last), failure@),
{
    WriteEvent {
        phase: WritePhase::Failed,
        current_file: clone_opt(&failure.current_file),
        files_completed: failure.files_completed,
        files_total: match last {
            Some(e) => e.files_total,
            None => 0,
        },
        bytes_written: failure.bytes_written,
        bytes_total: match last {
            Some(e) => e.bytes_total,
            None => 0,
        },
        partition: failure.partition,
        logical_block: failure.logical_block,
        telemetry: None,
        performance: None,
        failure: Some(failure.clone()),
    }
}

/// A failure that may simply be retried has changed nothing on the volume: no data had
/// been written, and nothing asks for a diagnosis. One that left the volume between two
/// generations always asks for a diagnosis.
pub proof fn retry_is_safe_only_before_data(last: Option<EventModel>, message: Seq<char>)
    ensures
        failure_spec(last, message).safe_to_retry ==> !failure_spec(
            last,
            message,
        ).requires_diagnosis && (last is None || last->0.phase is Preparing
            || last->0.phase is Failed || (last->0.phase is WritingData && last->0.bytes_written
            == 0)),
        ({
            let f = failure_spec(last, message);
            f.commit_state is DataIncomplete || f.commit_state is DataIndexOnly
                || f.commit_state is IndexesWritten || f.commit_state is CoherencyPartial
                ==> f.requires_diagnosis && !f.safe_to_retry
        }),
{
}

} // verus!
