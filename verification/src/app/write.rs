//! A write to a volume, from the first look at it to the last check of what was written.
use vstd::prelude::*;
use vstd::string::*;

use super::append::{
    append_begin, append_next, data_location, extent_start, hash_goes_on, hash_reply,
    validate_write_vci, vci_read, write_vci_fault, AppendAction, AppendActionModel, AppendCheck,
    AppendState, FileHash, HashAction, HashActionModel, HashCheck, HashState, VciReply,
};
use super::commit::{
    commit_go, commit_next, commit_start, copy_place, data_index_of, data_place, event_models,
    index_copy_of, CommitAction, CommitActionModel, CommitPlaces, CommitRun, CommitState,
    CommitTurn,
};
use super::data::{
    current_target, file_begun, file_ended, hash_models, record_written, write_fault, DataState,
    DataWriter, HashModel, SourcePipelineMessage,
};
use super::drives::reply_view;
use super::flow::{failure, failure_of, misfit, CommandModel, TapeCommand, TapeReply};
use super::inspect::VolumeModel;
use super::plan::{
    plan_pseudorandom_file, plan_source_roots, plan_source_tree, plan_start, planned,
    planned_models, planned_roots, planned_test_file, PlanState, PlannedFile, PlannedModel,
    SourceNode, WritePlan,
};
use super::source::{totals_text, validate_write_plan_expectation, WritePlanExpectation};
use super::volume::VolumeInfo;
use super::write_state::{
    check_write_stop, classify_write_failure, failure_event, failure_report, failure_spec,
    is_cancelled, opt_event, options_at, progress_event, stop_spec, CancellationToken,
    ChannelTelemetrySample, EventModel, FailureModel, WriteEvent, WriteFailpoint, WriteFailure,
    WriteOptions, WritePerformanceSample, WritePhase, WriteProgress, WriteVerification,
};
use crate::device::Error;
use crate::ltfs::index::{file_at, Index, IndexModel, TapePos};
use crate::ltfs::label::{Label, LabelModel};
use crate::ltfs::mam::VOLUME_COHERENCY_INFORMATION;
use crate::text::{cat2, cat3, cat4, decimal, decimal_spec, opt_view, same};

verus! {

// ---------------------------------------------------------------------------
// Before anything is written
// ---------------------------------------------------------------------------

/// A volume that can be written to.
pub struct WriteVolume {
    pub label: Label,
    pub index: Index,
    pub index_write_block: Option<u64>,
}

/// The model of a volume that can be written to.
#[verifier::ext_equal]
pub struct WritableModel {
    pub label: LabelModel,
    pub index: IndexModel,
    pub index_write_block: Option<u64>,
}

impl View for WriteVolume {
    type V = WritableModel;

    open spec fn view(&self) -> WritableModel {
        WritableModel {
            label: self.label@,
            index: self.index@,
            index_write_block: self.index_write_block,
        }
    }
}

/// What is needed of a volume, or what it lacks.
pub open spec fn writable_volume(v: VolumeModel) -> Result<WritableModel, Seq<char>> {
    if !v.recognized {
        Err(
            match v.reason {
                Some(reason) => reason,
                None => "不是 LTFS 卷"@,
            },
        )
    } else {
        match (v.label, v.index) {
            (None, _) => Err("缺少 LTFS label"@),
            (Some(_), None) => Err("没有可用的 index"@),
            (Some(label), Some(index)) => Ok(
                WritableModel { label, index, index_write_block: v.index_write_block },
            ),
        }
    }
}

/// What is needed of a volume, or what it lacks.
pub fn check_write_volume(volume: VolumeInfo) -> (result: Result<WriteVolume, String>)
    ensures
        match result {
            Ok(v) => writable_volume(volume@) == Ok::<WritableModel, Seq<char>>(v@),
            Err(message) => writable_volume(volume@) == Err::<WritableModel, Seq<char>>(message@),
        },
{
    if !volume.recognized {
        return Err(
            match volume.reason {
                Some(reason) => reason,
                None => "不是 LTFS 卷".to_owned(),
            },
        );
    }
    match (volume.label, volume.index) {
        (None, _) => Err("缺少 LTFS label".to_owned()),
        (Some(_), None) => Err("没有可用的 index".to_owned()),
        (Some(label), Some(index)) => Ok(
            WriteVolume { label, index, index_write_block: volume.index_write_block },
        ),
    }
}

/// Why a volume is not to be written to.
pub open spec fn lock_fault(index: IndexModel) -> Option<Seq<char>> {
    match index.volume_lock_state {
        Some(state) => if state != "unlocked"@ {
            Some("LTFS 卷当前不可写（volumelockstate="@ + state + "）"@)
        } else {
            None
        },
        None => None,
    }
}

/// Whether a volume may be written to.
pub fn check_unlocked(index: &Index) -> (result: Result<(), String>)
    ensures
        match result {
            Ok(_) => lock_fault(index@) is None,
            Err(message) => lock_fault(index@) == Some(message@),
        },
{
    match &index.volume_lock_state {
        Some(state) => if !same(state.as_str(), "unlocked") {
            Err(cat3("LTFS 卷当前不可写（volumelockstate=", state.as_str(), "）"))
        } else {
            Ok(())
        },
        None => Ok(()),
    }
}

/// What is written.
#[derive(Debug, PartialEq, Eq)]
pub enum WriteSource {
    /// One source tree, to the target path.
    Local(SourceNode),
    /// Several source trees, below the target directory.
    LocalRoots(Vec<SourceNode>),
    /// A test file.
    Pseudorandom { size: u64, seed: u64 },
}

/// The plan for a source.
pub open spec fn source_plan(
    index: IndexModel,
    source: WriteSource,
    target: Seq<char>,
    now: Seq<char>,
) -> Result<PlanState, Seq<char>> {
    match source {
        WriteSource::Local(node) => planned(plan_start(index), node, target, now),
        WriteSource::LocalRoots(roots) => if roots@.len() == 0 {
            Err("至少选择一个 source root"@)
        } else {
            planned_roots(plan_start(index), roots@, target, now)
        },
        WriteSource::Pseudorandom { size, seed } => planned_test_file(
            plan_start(index),
            target,
            size,
            seed,
            now,
        ),
    }
}

fn plan_source(index: &mut Index, source: &WriteSource, target: &str, now: &str) -> (result: Result<
    WritePlan,
    String,
>)
    ensures
        super::plan::plan_outcome(
            result,
            old(index)@,
            final(index)@,
            source_plan(old(index)@, *source, target@, now@),
        ),
{
    match source {
        WriteSource::Local(node) => plan_source_tree(index, node, target, now),
        WriteSource::LocalRoots(roots) => plan_source_roots(index, roots, target, now),
        WriteSource::Pseudorandom { size, seed } => plan_pseudorandom_file(
            index,
            target,
            *size,
            *seed,
            now,
        ),
    }
}

/// Why a plan is not what was confirmed.
pub open spec fn expectation_fault(plan: PlanState, expected: Option<WritePlanExpectation>) -> Option<
    Seq<char>,
> {
    match expected {
        None => None,
        Some(e) => if plan.files.len() as usize == e.files && plan.directories == e.directories
            && plan.total_bytes == e.payload_bytes {
            None
        } else {
            Some(
                "source 在最终确认后发生变化：计划 "@ + totals_text(
                    e.files as nat,
                    e.directories as nat,
                    e.payload_bytes as nat,
                ) + "，当前 "@ + totals_text(
                    (plan.files.len() as usize) as nat,
                    plan.directories as nat,
                    plan.total_bytes as nat,
                ),
            )
        },
    }
}

// ---------------------------------------------------------------------------
// Where a write stands
// ---------------------------------------------------------------------------

/// What is fixed once a write is planned.
#[derive(Debug, Clone, Copy, PartialEq, Eq, Structural)]
pub struct WriteFacts {
    pub data_partition: u8,
    pub index_partition: u8,
    pub blocksize: usize,
    pub index_write_block: u64,
    pub highest_uid: u64,
    pub directories: usize,
}

/// Where data is appended, and the index before it.
#[derive(Debug, Clone, Copy, PartialEq, Eq, Structural)]
pub struct WritePlace {
    pub last: TapePos,
    pub data_append: u64,
}

/// What a finished write has done.
#[derive(Debug, PartialEq, Eq)]
pub struct WriteSummary {
    pub bytes: u64,
    pub files: usize,
    pub directories: usize,
    pub file_uid: u64,
    pub generation: u64,
    pub data_start_block: u64,
    pub hashes: Vec<FileHash>,
    pub verification: WriteVerification,
}

/// The model of a summary.
#[verifier::ext_equal]
pub struct SummaryModel {
    pub bytes: u64,
    pub files: usize,
    pub directories: usize,
    pub file_uid: u64,
    pub generation: u64,
    pub data_start_block: u64,
    pub hashes: Seq<HashModel>,
    pub verification: WriteVerification,
}

impl View for WriteSummary {
    type V = SummaryModel;

    open spec fn view(&self) -> SummaryModel {
        SummaryModel {
            bytes: self.bytes,
            files: self.files,
            directories: self.directories,
            file_uid: self.file_uid,
            generation: self.generation,
            data_start_block: self.data_start_block,
            hashes: hash_models(self.hashes@),
            verification: self.verification,
        }
    }
}

/// What is known once everything is committed.
pub struct Committed {
    index: Index,
    hashes: Vec<FileHash>,
    progress: WriteProgress,
    facts: WriteFacts,
    place: WritePlace,
}

/// The model of what is known once everything is committed.
#[verifier::ext_equal]
pub struct CommittedModel {
    pub index: IndexModel,
    pub hashes: Seq<HashModel>,
    pub progress: WriteProgress,
    pub facts: WriteFacts,
    pub place: WritePlace,
}

impl View for Committed {
    type V = CommittedModel;

    closed spec fn view(&self) -> CommittedModel {
        CommittedModel {
            index: self.index@,
            hashes: hash_models(self.hashes@),
            progress: self.progress,
            facts: self.facts,
            place: self.place,
        }
    }
}

/// The writer of the data with what is fixed.
pub struct DataRun {
    facts: WriteFacts,
    place: WritePlace,
    writer: DataWriter,
}

/// The model of the writer of the data with what is fixed.
#[verifier::ext_equal]
pub struct DataRunModel {
    pub facts: WriteFacts,
    pub place: WritePlace,
    pub writer: DataState,
}

impl View for DataRun {
    type V = DataRunModel;

    closed spec fn view(&self) -> DataRunModel {
        DataRunModel { facts: self.facts, place: self.place, writer: self.writer@ }
    }
}

/// A write that is planned.
pub struct PlannedWrite {
    label: Label,
    index: Index,
    files: Vec<PlannedFile>,
    progress: WriteProgress,
    facts: WriteFacts,
}

/// The model of a write that is planned.
#[verifier::ext_equal]
pub struct PlannedWriteModel {
    pub label: LabelModel,
    pub index: IndexModel,
    pub files: Seq<PlannedModel>,
    pub progress: WriteProgress,
    pub facts: WriteFacts,
}

impl View for PlannedWrite {
    type V = PlannedWriteModel;

    closed spec fn view(&self) -> PlannedWriteModel {
        PlannedWriteModel {
            label: self.label@,
            index: self.index@,
            files: planned_models(self.files@),
            progress: self.progress,
            facts: self.facts,
        }
    }
}

/// Where a write stands: what it waits for.
pub enum WriteStage {
    /// The volume is inspected.
    Inspect,
    /// The coherency information of the index partition is read.
    FirstVci(WriteVolume),
    /// That of the data partition is read.
    SecondVci(WriteVolume, VciReply),
    /// The source is looked at.
    Source(WriteVolume),
    /// The drive is told that any place may be written.
    WriteAnywhere(PlannedWrite),
    /// The end of the data is looked for.
    Append(PlannedWrite, AppendCheck),
    /// The reader of the source starts.
    Pipeline(DataRun),
    /// The reader of the source hands something on.
    Receive(DataRun),
    /// Nothing came; the throughput is sampled.
    Idle(DataRun),
    /// A record is written.
    Write(DataRun, Vec<u8>),
    /// A record has been written; the throughput is sampled.
    Paced(DataRun),
    /// The channels are sampled.
    Channels(DataRun),
    /// The reader of the source ends.
    Joined(DataRun),
    Commit(Committed, CommitRun),
    /// The file at the place is read back.
    Verify(Committed, usize, HashCheck),
    /// The health of the drive is read.
    Health(Committed),
    Ended,
}

/// The model of where a write stands.
pub enum StageModel {
    Inspect,
    FirstVci(WritableModel),
    SecondVci(WritableModel, Result<Seq<u8>, Seq<char>>),
    Source(WritableModel),
    WriteAnywhere(PlannedWriteModel),
    Append(PlannedWriteModel, AppendState),
    Pipeline(DataRunModel),
    Receive(DataRunModel),
    Idle(DataRunModel),
    Write(DataRunModel, Seq<u8>),
    Paced(DataRunModel),
    Channels(DataRunModel),
    Joined(DataRunModel),
    Commit(CommittedModel, CommitState),
    Verify(CommittedModel, nat, HashState),
    Health(CommittedModel),
    Ended,
}

impl View for WriteStage {
    type V = StageModel;

    closed spec fn view(&self) -> StageModel {
        match *self {
            WriteStage::Inspect => StageModel::Inspect,
            WriteStage::FirstVci(v) => StageModel::FirstVci(v@),
            WriteStage::SecondVci(v, first) => StageModel::SecondVci(v@, reply_view(first)),
            WriteStage::Source(v) => StageModel::Source(v@),
            WriteStage::WriteAnywhere(p) => StageModel::WriteAnywhere(p@),
            WriteStage::Append(p, check) => StageModel::Append(p@, check@),
            WriteStage::Pipeline(run) => StageModel::Pipeline(run@),
            WriteStage::Receive(run) => StageModel::Receive(run@),
            WriteStage::Idle(run) => StageModel::Idle(run@),
            WriteStage::Write(run, data) => StageModel::Write(run@, data@),
            WriteStage::Paced(run) => StageModel::Paced(run@),
            WriteStage::Channels(run) => StageModel::Channels(run@),
            WriteStage::Joined(run) => StageModel::Joined(run@),
            WriteStage::Commit(c, run) => StageModel::Commit(c@, run@),
            WriteStage::Verify(c, k, check) => StageModel::Verify(c@, k as nat, check.state()),
            WriteStage::Health(c) => StageModel::Health(c@),
            WriteStage::Ended => StageModel::Ended,
        }
    }
}

impl WriteStage {
    /// Records are at least one byte long, and what is read back is under way.
    pub closed spec fn wf(&self) -> bool {
        match *self {
            WriteStage::WriteAnywhere(p) => p.facts.blocksize > 0,
            WriteStage::Append(p, _) => p.facts.blocksize > 0,
            WriteStage::Pipeline(run) => run.facts.blocksize > 0,
            WriteStage::Receive(run) => run.facts.blocksize > 0,
            WriteStage::Idle(run) => run.facts.blocksize > 0,
            WriteStage::Write(run, _) => run.facts.blocksize > 0 && run.writer@.active is Some,
            WriteStage::Paced(run) => run.facts.blocksize > 0,
            WriteStage::Channels(run) => run.facts.blocksize > 0,
            WriteStage::Joined(run) => run.facts.blocksize > 0,
            WriteStage::Verify(c, k, check) => check.wf() && k < c.hashes@.len(),
            _ => true,
        }
    }
}

/// What a write knows at every stage.
pub struct WriteContext {
    tape_path: String,
    now: String,
    options: WriteOptions,
    last: Option<WriteEvent>,
}

/// The model of what a write knows at every stage.
#[verifier::ext_equal]
pub struct ContextModel {
    pub tape_path: Seq<char>,
    pub now: Seq<char>,
    pub options: WriteOptions,
    pub last: Option<EventModel>,
}

pub open spec fn opt_owned_event(event: Option<WriteEvent>) -> Option<EventModel> {
    match event {
        Some(e) => Some(e@),
        None => None,
    }
}

impl View for WriteContext {
    type V = ContextModel;

    closed spec fn view(&self) -> ContextModel {
        ContextModel {
            tape_path: self.tape_path@,
            now: self.now@,
            options: self.options,
            last: opt_owned_event(self.last),
        }
    }
}

/// A write that runs.
pub struct WriteSession {
    context: WriteContext,
    stage: WriteStage,
}

impl WriteSession {
    /// What the write knows.
    pub closed spec fn context_spec(&self) -> ContextModel {
        self.context@
    }

    /// Where the write stands.
    pub closed spec fn stage_spec(&self) -> StageModel {
        self.stage@
    }

    pub closed spec fn wf(&self) -> bool {
        self.stage.wf()
    }
}

/// What came of an action.
#[derive(Debug, PartialEq, Eq)]
pub enum WriteReply {
    Done,
    Failed(String),
    Volume(VolumeInfo),
    Tape(TapeReply),
    /// The drive refused a record.
    Fault(Error),
    /// The source, and the time of the write.
    Source { source: WriteSource, now: String },
    /// What the reader of the source handed on; nothing where it is still reading.
    Message(Option<SourcePipelineMessage>),
    Performance(Option<WritePerformanceSample>),
    Channels(Option<ChannelTelemetrySample>),
}

/// What a write does next.
#[derive(Debug, PartialEq, Eq)]
pub enum WriteAction {
    Inspect,
    Command(TapeCommand),
    LookAtSource,
    StartPipeline { files: Vec<PlannedFile>, blocksize: usize },
    Receive,
    SamplePerformance,
    SampleChannels { partition: u8, logical_block: u64, bytes_written: u64 },
    /// The reader of the source is waited for, and the throughput sampled a last time.
    FinishPipeline,
    ReadHealth,
    Finished(WriteSummary),
    Failed(WriteFailure),
}

/// The model of what a write does next.
pub enum WriteActionModel {
    Inspect,
    Command(CommandModel),
    LookAtSource,
    StartPipeline { files: Seq<PlannedModel>, blocksize: usize },
    Receive,
    SamplePerformance,
    SampleChannels { partition: u8, logical_block: u64, bytes_written: u64 },
    FinishPipeline,
    ReadHealth,
    Finished(SummaryModel),
    Failed(FailureModel),
}

impl View for WriteAction {
    type V = WriteActionModel;

    open spec fn view(&self) -> WriteActionModel {
        match *self {
            WriteAction::Inspect => WriteActionModel::Inspect,
            WriteAction::Command(command) => WriteActionModel::Command(command@),
            WriteAction::LookAtSource => WriteActionModel::LookAtSource,
            WriteAction::StartPipeline { files, blocksize } => WriteActionModel::StartPipeline {
                files: planned_models(files@),
                blocksize,
            },
            WriteAction::Receive => WriteActionModel::Receive,
            WriteAction::SamplePerformance => WriteActionModel::SamplePerformance,
            WriteAction::SampleChannels { partition, logical_block, bytes_written } =>
                WriteActionModel::SampleChannels { partition, logical_block, bytes_written },
            WriteAction::FinishPipeline => WriteActionModel::FinishPipeline,
            WriteAction::ReadHealth => WriteActionModel::ReadHealth,
            WriteAction::Finished(summary) => WriteActionModel::Finished(summary@),
            WriteAction::Failed(f) => WriteActionModel::Failed(f@),
        }
    }
}

/// A move of a write: what is reported first, and what is done then.
#[derive(Debug, PartialEq, Eq)]
pub struct WriteMove {
    pub events: Vec<WriteEvent>,
    pub action: WriteAction,
}

/// A move of a write, with the state behind it.
#[verifier::ext_equal]
pub struct WriteTurn {
    pub context: ContextModel,
    pub stage: StageModel,
    pub events: Seq<EventModel>,
    pub action: WriteActionModel,
}

/// The move that a result holds.
pub open spec fn turn_of(session: WriteSession, m: WriteMove) -> WriteTurn {
    WriteTurn {
        context: session.context_spec(),
        stage: session.stage_spec(),
        events: event_models(m.events@),
        action: m.action@,
    }
}

/// The last event, with those of a move.
pub open spec fn last_with(last: Option<EventModel>, events: Seq<EventModel>) -> Option<EventModel> {
    if events.len() == 0 {
        last
    } else {
        Some(events.last())
    }
}

/// The write goes on.
#[verifier::opaque]
pub open spec fn goes_on(
    c: ContextModel,
    stage: StageModel,
    events: Seq<EventModel>,
    action: WriteActionModel,
) -> WriteTurn {
    WriteTurn {
        context: ContextModel { last: last_with(c.last, events), ..c },
        stage,
        events,
        action,
    }
}

/// The write fails: what that means is told from the last event, and reported.
#[verifier::opaque]
pub open spec fn fails_with(c: ContextModel, events: Seq<EventModel>, message: Seq<char>) -> WriteTurn {
    let last = last_with(c.last, events);
    let f = failure_spec(last, message);
    goes_on(
        c,
        StageModel::Ended,
        events.push(failure_report(last, f)),
        WriteActionModel::Failed(f),
    )
}

// ---------------------------------------------------------------------------
// The moves
// ---------------------------------------------------------------------------

/// The options once it is known whether the write was asked to stop.
pub open spec fn asked(options: WriteOptions, cancelled: bool) -> WriteOptions {
    match options.cancellation {
        Some(token) => WriteOptions {
            cancellation: Some(CancellationToken { requested: token.requested || cancelled }),
            ..options
        },
        None => options,
    }
}

/// What is read for the coherency information of a partition.
pub open spec fn vci_command(partition: u8) -> WriteActionModel {
    WriteActionModel::Command(
        CommandModel::ReadMam { partition, id: VOLUME_COHERENCY_INFORMATION },
    )
}

/// What came of reading coherency information.
pub open spec fn vci_bytes_of(reply: WriteReply) -> Result<Seq<u8>, Seq<char>> {
    match reply {
        WriteReply::Tape(TapeReply::Bytes(bytes)) => Ok(bytes@),
        _ => Err(write_refusal(reply)),
    }
}

/// The coherency information of both partitions is known: the volume must agree with it
/// and must not be locked.
#[verifier::opaque]
pub open spec fn coherency_checked(
    c: ContextModel,
    v: WritableModel,
    first: Result<Seq<u8>, Seq<char>>,
    second: Result<Seq<u8>, Seq<char>>,
) -> WriteTurn {
    let none = Seq::<EventModel>::empty();
    match write_vci_fault(
        v.label,
        v.index,
        vci_read(first, v.label.index_partition),
        vci_read(second, v.label.data_partition),
    ) {
        Some(message) => fails_with(c, none, message),
        None => match lock_fault(v.index) {
            Some(message) => fails_with(c, none, message),
            None => goes_on(c, StageModel::Source(v), none, WriteActionModel::LookAtSource),
        },
    }
}

/// The size of the records of a volume.
pub open spec fn blocksize_of(label: LabelModel) -> usize {
    if label.blocksize as usize == 0 {
        524288
    } else {
        label.blocksize as usize
    }
}

/// The progress at the start.
pub open spec fn first_progress(plan: PlanState) -> WriteProgress {
    WriteProgress {
        files_total: plan.files.len() as usize,
        bytes_total: plan.total_bytes,
        files_completed: 0,
        bytes_written: 0,
        partition: None,
        logical_block: None,
    }
}

/// The write is planned against the index of the volume.
#[verifier::opaque]
pub open spec fn source_known(
    c: ContextModel,
    v: WritableModel,
    source: WriteSource,
    now: Seq<char>,
) -> WriteTurn {
    let d = ContextModel { now, ..c };
    match source_plan(v.index, source, c.tape_path, now) {
        Err(message) => fails_with(d, Seq::empty(), message),
        Ok(plan) => match expectation_fault(plan, c.options.expected_source) {
            Some(message) => fails_with(d, Seq::empty(), message),
            None => {
                let progress = first_progress(plan);
                let events = seq![progress_event(progress, WritePhase::Preparing, None)];
                match v.index_write_block {
                    None => fails_with(d, events, "无法确定 index 分区刷新位置"@),
                    Some(block) => goes_on(
                        d,
                        StageModel::WriteAnywhere(
                            PlannedWriteModel {
                                label: v.label,
                                index: IndexModel { root: plan.root, ..v.index },
                                files: plan.files,
                                progress,
                                facts: WriteFacts {
                                    data_partition: v.label.data_partition,
                                    index_partition: v.label.index_partition,
                                    blocksize: blocksize_of(v.label),
                                    index_write_block: block,
                                    highest_uid: plan.highest_uid,
                                    directories: plan.directories,
                                },
                            },
                        ),
                        events,
                        WriteActionModel::Command(CommandModel::EnsureWriteAnywhere),
                    ),
                }
            },
        },
    }
}

/// The drive may write anywhere: the end of the data is looked for.
#[verifier::opaque]
pub open spec fn write_enabled(c: ContextModel, p: PlannedWriteModel) -> WriteTurn {
    match data_location(p.label, p.index) {
        None => fails_with(
            c,
            Seq::empty(),
            "index 缺少指向 data 分区的 previousgenerationlocation"@,
        ),
        Some(last) => goes_on(
            c,
            StageModel::Append(
                p,
                append_begin(last, p.index.volume_uuid, p.index.generation).0,
            ),
            Seq::empty(),
            WriteActionModel::Command(
                CommandModel::Locate { partition: last.partition, block: last.startblock },
            ),
        ),
    }
}

/// What the check for the end of the data does next.
#[verifier::opaque]
pub open spec fn append_moves(
    c: ContextModel,
    p: PlannedWriteModel,
    s: AppendState,
    action: AppendActionModel,
) -> WriteTurn {
    match action {
        AppendActionModel::Command(command) => goes_on(
            c,
            StageModel::Append(p, s),
            Seq::empty(),
            WriteActionModel::Command(command),
        ),
        AppendActionModel::Failed(message) => fails_with(c, Seq::empty(), message),
        AppendActionModel::Finished(append) => goes_on(
            c,
            StageModel::Pipeline(
                DataRunModel {
                    facts: p.facts,
                    place: WritePlace { last: s.referenced, data_append: append },
                    writer: DataState {
                        index: p.index,
                        data_partition: p.facts.data_partition,
                        position: append,
                        progress: WriteProgress {
                            partition: Some(p.facts.data_partition),
                            logical_block: Some(append),
                            ..p.progress
                        },
                        first_write: true,
                        active: None,
                        hashes: Seq::empty(),
                    },
                },
            ),
            Seq::empty(),
            WriteActionModel::StartPipeline { files: p.files, blocksize: p.facts.blocksize },
        ),
    }
}

/// More is received until all files are written.
pub open spec fn data_goes_on(c: ContextModel, run: DataRunModel, events: Seq<EventModel>) -> WriteTurn {
    if run.writer.progress.files_completed < run.writer.progress.files_total {
        goes_on(c, StageModel::Receive(run), events, WriteActionModel::Receive)
    } else {
        goes_on(c, StageModel::Joined(run), events, WriteActionModel::FinishPipeline)
    }
}

/// What the reader of the source handed on.
#[verifier::opaque]
pub open spec fn message_received(
    c: ContextModel,
    run: DataRunModel,
    message: Option<SourcePipelineMessage>,
) -> WriteTurn {
    match message {
        None => goes_on(
            c,
            StageModel::Idle(run),
            Seq::empty(),
            WriteActionModel::SamplePerformance,
        ),
        Some(SourcePipelineMessage::FileStart { target, description, expected_size }) =>
            if run.writer.active is Some {
                fails_with(
                    c,
                    Seq::empty(),
                    "source pipeline 在上一文件结束前发送了新文件"@,
                )
            } else {
                data_goes_on(
                    c,
                    DataRunModel {
                        writer: file_begun(run.writer, target@, description@, expected_size),
                        ..run
                    },
                    seq![
                        progress_event(
                            run.writer.progress,
                            WritePhase::WritingData,
                            Some(target@),
                        ),
                    ],
                )
            },
        Some(SourcePipelineMessage::Data(data)) => if run.writer.active is None {
            fails_with(c, Seq::empty(), "source pipeline 在 FileStart 前发送了数据"@)
        } else {
            goes_on(
                c,
                StageModel::Write(run, data@),
                Seq::empty(),
                WriteActionModel::Command(CommandModel::WriteRecord { data: data@ }),
            )
        },
        Some(SourcePipelineMessage::FileEnd { actual_size }) => match file_ended(
            run.writer,
            actual_size,
        ) {
            Err(message) => fails_with(c, Seq::empty(), message),
            Ok(writer) => data_goes_on(
                c,
                DataRunModel { writer, ..run },
                seq![
                    progress_event(
                        writer.progress,
                        WritePhase::WritingData,
                        current_target(run.writer),
                    ),
                ],
            ),
        },
        Some(SourcePipelineMessage::Error(message)) => fails_with(c, Seq::empty(), message@),
    }
}

/// The event that reports a sample of the throughput.
pub open spec fn performance_events(
    progress: WriteProgress,
    file: Option<Seq<char>>,
    sample: Option<WritePerformanceSample>,
) -> Seq<EventModel> {
    match sample {
        Some(s) => seq![
            EventModel {
                performance: Some(s),
                ..progress_event(progress, WritePhase::WritingData, file)
            },
        ],
        None => Seq::empty(),
    }
}

/// Behind a record: the throughput is reported, the write may stop, and the channels are
/// sampled.
#[verifier::opaque]
pub open spec fn record_paced(
    c: ContextModel,
    run: DataRunModel,
    sample: Option<WritePerformanceSample>,
) -> WriteTurn {
    let file = current_target(run.writer);
    let point = WriteFailpoint::AfterFirstDataRecord;
    let first = performance_events(run.writer.progress, file, sample);
    let halts = c.options.failpoint == Some(point) || c.options.cancelpoint == Some(point)
        || is_cancelled(c.options);
    let events = if halts {
        first.push(progress_event(run.writer.progress, WritePhase::WritingData, file))
    } else {
        first
    };
    let d = ContextModel { options: options_at(c.options, point), ..c };
    match stop_spec(c.options, point) {
        Some(message) => fails_with(d, events, message),
        None => goes_on(
            d,
            StageModel::Channels(run),
            events,
            WriteActionModel::SampleChannels {
                partition: run.facts.data_partition,
                logical_block: run.writer.position,
                bytes_written: run.writer.progress.bytes_written,
            },
        ),
    }
}

/// The event that reports a sample of the channels.
pub open spec fn channel_events(writer: DataState, sample: Option<ChannelTelemetrySample>) -> Seq<
    EventModel,
> {
    match sample {
        Some(s) => seq![
            EventModel {
                telemetry: Some(s@),
                ..progress_event(writer.progress, WritePhase::WritingData, current_target(writer))
            },
        ],
        None => Seq::empty(),
    }
}

/// The places that the commit writes to.
pub open spec fn places_of(run: DataRunModel) -> CommitPlaces {
    CommitPlaces {
        data_partition: run.facts.data_partition,
        index_partition: run.facts.index_partition,
        data_end: run.writer.position,
        index_write_block: run.facts.index_write_block,
        last: run.place.last,
    }
}

/// The commit at its start.
pub open spec fn first_commit_state(
    c: ContextModel,
    run: DataRunModel,
    data_index: IndexModel,
    copy: IndexModel,
) -> CommitState {
    commit_start(
        data_index,
        copy,
        run.facts.index_write_block,
        run.facts.blocksize as nat,
        run.writer.progress,
        c.options,
    )
}

/// All data is written: the commit begins.
#[verifier::opaque]
pub open spec fn data_done(c: ContextModel, run: DataRunModel, events: Seq<EventModel>) -> WriteTurn {
    let places = places_of(run);
    let data_index = data_index_of(
        run.writer.index,
        c.now,
        run.facts.highest_uid,
        data_place(places),
        places.last,
    );
    let copy = index_copy_of(data_index, copy_place(places));
    let committed = CommittedModel {
        index: copy,
        hashes: run.writer.hashes,
        progress: run.writer.progress,
        facts: run.facts,
        place: run.place,
    };
    let turn = commit_go(first_commit_state(c, run, data_index, copy));
    commit_moves(c, committed, turn, events)
}

/// What the commit does next.
#[verifier::opaque]
pub open spec fn commit_moves(
    c: ContextModel,
    committed: CommittedModel,
    turn: CommitTurn,
    events: Seq<EventModel>,
) -> WriteTurn {
    let all = events + turn.events;
    let d = ContextModel { options: turn.state.options, ..c };
    match turn.action {
        CommitActionModel::Command(command) => goes_on(
            d,
            StageModel::Commit(committed, turn.state),
            all,
            WriteActionModel::Command(command),
        ),
        CommitActionModel::Failed(message) => fails_with(d, all, message),
        CommitActionModel::Finished => commit_done(
            d,
            CommittedModel { progress: turn.state.progress, ..committed },
            all,
        ),
    }
}

/// Everything is committed: what was written is read back, where that is wanted.
#[verifier::opaque]
pub open spec fn commit_done(c: ContextModel, done: CommittedModel, events: Seq<EventModel>) -> WriteTurn {
    if c.options.verification is ReadBackSha256 {
        let all = events.push(progress_event(done.progress, WritePhase::Verifying, None));
        let point = WriteFailpoint::BeforeVerify;
        let d = ContextModel { options: options_at(c.options, point), ..c };
        match stop_spec(c.options, point) {
            Some(message) => fails_with(d, all, message),
            None => verify_from(d, done, 0, all),
        }
    } else {
        goes_on(c, StageModel::Health(done), events, WriteActionModel::ReadHealth)
    }
}

/// A check that failed, in words.
pub open spec fn verify_fault(done: CommittedModel, message: Seq<char>) -> Seq<char> {
    "写入已提交（index generation "@ + decimal_spec(done.index.generation as nat)
        + "、MAM VCI 已更新），但写后校验失败："@ + message
}

/// The check of a file at its start.
pub open spec fn first_hash_state(done: CommittedModel, k: nat) -> Option<HashState> {
    let h = done.hashes[k as int];
    match file_at(done.index.root, h.path) {
        Some(f) => Some(
            HashState {
                path: h.path,
                expected: h.sha256,
                length: f.length,
                reader: extent_start(f.extents),
                bytes: Seq::empty(),
            },
        ),
        None => None,
    }
}

/// The files from the one at `k` on are read back.
pub open spec fn verify_from(
    c: ContextModel,
    done: CommittedModel,
    k: nat,
    events: Seq<EventModel>,
) -> WriteTurn
    decreases done.hashes.len() - k,
{
    if k >= done.hashes.len() {
        goes_on(c, StageModel::Health(done), events, WriteActionModel::ReadHealth)
    } else {
        let h = done.hashes[k as int];
        let all = events.push(
            progress_event(done.progress, WritePhase::Verifying, Some(h.path)),
        );
        match first_hash_state(done, k) {
            None => fails_with(c, all, verify_fault(done, "index 中找不到 "@ + h.path)),
            Some(state) => match hash_goes_on(state) {
                HashActionModel::Command(command) => goes_on(
                    c,
                    StageModel::Verify(done, k, state),
                    all,
                    WriteActionModel::Command(command),
                ),
                HashActionModel::Finished(Ok(_)) => verify_from(c, done, k + 1, all),
                HashActionModel::Finished(Err(message)) => fails_with(
                    c,
                    all,
                    verify_fault(done, message),
                ),
            },
        }
    }
}

/// What the check of a file does next.
#[verifier::opaque]
pub open spec fn verify_moves(
    c: ContextModel,
    done: CommittedModel,
    k: nat,
    state: HashState,
    action: HashActionModel,
) -> WriteTurn {
    match action {
        HashActionModel::Command(command) => goes_on(
            c,
            StageModel::Verify(done, k, state),
            Seq::empty(),
            WriteActionModel::Command(command),
        ),
        HashActionModel::Finished(Ok(_)) => verify_from(c, done, k + 1, Seq::empty()),
        HashActionModel::Finished(Err(message)) => fails_with(
            c,
            Seq::empty(),
            verify_fault(done, message),
        ),
    }
}

/// The write is done.
#[verifier::opaque]
pub open spec fn write_done(c: ContextModel, done: CommittedModel) -> WriteTurn {
    goes_on(
        c,
        StageModel::Ended,
        seq![progress_event(done.progress, WritePhase::Completed, None)],
        WriteActionModel::Finished(
            SummaryModel {
                bytes: done.progress.bytes_written,
                files: done.progress.files_total,
                directories: done.facts.directories,
                file_uid: done.facts.highest_uid,
                generation: done.index.generation,
                data_start_block: done.place.data_append,
                hashes: done.hashes,
                verification: c.options.verification,
            },
        ),
    )
}

/// Why an action that should have brought something did not.
pub open spec fn write_refusal(reply: WriteReply) -> Seq<char> {
    match reply {
        WriteReply::Failed(message) => message@,
        WriteReply::Tape(TapeReply::Failed(message)) => message@,
        _ => misfit(),
    }
}

/// Why a command of the drive that should just be done was not.
pub open spec fn tape_failure(reply: WriteReply) -> Option<Seq<char>> {
    match reply {
        WriteReply::Tape(r) => failure(r),
        _ => Some(write_refusal(reply)),
    }
}

/// The volume is inspected.
#[verifier::opaque]
pub open spec fn inspect_reply(c: ContextModel, reply: WriteReply) -> WriteTurn {
    let none = Seq::<EventModel>::empty();
    match reply {
        WriteReply::Volume(volume) => match writable_volume(volume@) {
            Err(message) => fails_with(c, none, message),
            Ok(v) => if data_location(v.label, v.index) is None {
                fails_with(c, none, "index 缺少有效的 data previous-generation location"@)
            } else {
                goes_on(c, StageModel::FirstVci(v), none, vci_command(v.label.index_partition))
            },
        },
        _ => fails_with(c, none, write_refusal(reply)),
    }
}

/// The coherency information of the index partition is read.
#[verifier::opaque]
pub open spec fn first_vci_reply(c: ContextModel, v: WritableModel, reply: WriteReply) -> WriteTurn {
    goes_on(
        c,
        StageModel::SecondVci(v, vci_bytes_of(reply)),
        Seq::empty(),
        vci_command(v.label.data_partition),
    )
}

/// The source has been looked at.
#[verifier::opaque]
pub open spec fn source_reply(c: ContextModel, v: WritableModel, reply: WriteReply) -> WriteTurn {
    match reply {
        WriteReply::Source { source, now } => source_known(c, v, source, now@),
        _ => fails_with(c, Seq::empty(), write_refusal(reply)),
    }
}

/// The drive has been told that any place may be written.
#[verifier::opaque]
pub open spec fn anywhere_reply(c: ContextModel, p: PlannedWriteModel, reply: WriteReply) -> WriteTurn {
    match tape_failure(reply) {
        None => write_enabled(c, p),
        Some(message) => fails_with(
            c,
            Seq::empty(),
            "无法启用 LTFS write-anywhere 模式: "@ + message,
        ),
    }
}

/// The end of the data is looked for.
#[verifier::opaque]
pub open spec fn append_reply(
    c: ContextModel,
    p: PlannedWriteModel,
    s: AppendState,
    reply: WriteReply,
) -> WriteTurn {
    match reply {
        WriteReply::Tape(r) => append_moves(c, p, append_next(s, r).0, append_next(s, r).1),
        _ => fails_with(c, Seq::empty(), write_refusal(reply)),
    }
}

/// The reader of the source has been started.
#[verifier::opaque]
pub open spec fn pipeline_reply(c: ContextModel, run: DataRunModel, reply: WriteReply) -> WriteTurn {
    match reply {
        WriteReply::Done => data_goes_on(c, run, Seq::empty()),
        _ => fails_with(c, Seq::empty(), write_refusal(reply)),
    }
}

/// The reader of the source has been asked.
#[verifier::opaque]
pub open spec fn receive_reply(c: ContextModel, run: DataRunModel, reply: WriteReply) -> WriteTurn {
    match reply {
        WriteReply::Message(message) => message_received(c, run, message),
        _ => fails_with(c, Seq::empty(), write_refusal(reply)),
    }
}

/// Nothing came, and the throughput was sampled.
#[verifier::opaque]
pub open spec fn idle_reply(c: ContextModel, run: DataRunModel, reply: WriteReply) -> WriteTurn {
    match reply {
        WriteReply::Performance(sample) => data_goes_on(
            c,
            run,
            performance_events(run.writer.progress, current_target(run.writer), sample),
        ),
        _ => fails_with(c, Seq::empty(), write_refusal(reply)),
    }
}

/// A record was written, or refused.
#[verifier::opaque]
pub open spec fn record_reply(
    c: ContextModel,
    run: DataRunModel,
    data: Seq<u8>,
    reply: WriteReply,
) -> WriteTurn {
    match reply {
        WriteReply::Tape(TapeReply::Done) => goes_on(
            c,
            StageModel::Paced(DataRunModel { writer: record_written(run.writer, data), ..run }),
            Seq::empty(),
            WriteActionModel::SamplePerformance,
        ),
        WriteReply::Fault(error) => fails_with(c, Seq::empty(), write_fault(run.writer, error@)),
        _ => fails_with(c, Seq::empty(), write_refusal(reply)),
    }
}

/// Behind a record the throughput was sampled.
#[verifier::opaque]
pub open spec fn paced_reply(c: ContextModel, run: DataRunModel, reply: WriteReply) -> WriteTurn {
    match reply {
        WriteReply::Performance(sample) => record_paced(c, run, sample),
        _ => fails_with(c, Seq::empty(), write_refusal(reply)),
    }
}

/// The channels were sampled.
#[verifier::opaque]
pub open spec fn channels_reply(c: ContextModel, run: DataRunModel, reply: WriteReply) -> WriteTurn {
    match reply {
        WriteReply::Channels(sample) => data_goes_on(c, run, channel_events(run.writer, sample)),
        _ => fails_with(c, Seq::empty(), write_refusal(reply)),
    }
}

/// The reader of the source has ended.
#[verifier::opaque]
pub open spec fn joined_reply(c: ContextModel, run: DataRunModel, reply: WriteReply) -> WriteTurn {
    match reply {
        WriteReply::Performance(sample) => data_done(
            c,
            run,
            performance_events(run.writer.progress, None, sample),
        ),
        _ => fails_with(c, Seq::empty(), write_refusal(reply)),
    }
}

/// A step of the commit is done.
#[verifier::opaque]
pub open spec fn commit_reply(
    c: ContextModel,
    done: CommittedModel,
    s: CommitState,
    reply: WriteReply,
) -> WriteTurn {
    match reply {
        WriteReply::Tape(r) => commit_moves(
            c,
            done,
            commit_next(CommitState { options: c.options, ..s }, r),
            Seq::empty(),
        ),
        _ => fails_with(c, Seq::empty(), write_refusal(reply)),
    }
}

/// A file is being read back.
#[verifier::opaque]
pub open spec fn verify_reply(
    c: ContextModel,
    done: CommittedModel,
    k: nat,
    s: HashState,
    reply: WriteReply,
) -> WriteTurn {
    match reply {
        WriteReply::Tape(r) => verify_moves(c, done, k, hash_reply(s, r).0, hash_reply(s, r).1),
        _ => fails_with(c, Seq::empty(), write_refusal(reply)),
    }
}

/// The health of the drive has been read.
#[verifier::opaque]
pub open spec fn health_reply(c: ContextModel, done: CommittedModel, reply: WriteReply) -> WriteTurn {
    match reply {
        WriteReply::Done => write_done(c, done),
        _ => fails_with(c, Seq::empty(), write_refusal(reply)),
    }
}

/// The next move of a write, given what came of the last action.
pub open spec fn write_next(c: ContextModel, stage: StageModel, reply: WriteReply) -> WriteTurn {
    match stage {
        StageModel::Inspect => inspect_reply(c, reply),
        StageModel::FirstVci(v) => first_vci_reply(c, v, reply),
        StageModel::SecondVci(v, first) => coherency_checked(c, v, first, vci_bytes_of(reply)),
        StageModel::Source(v) => source_reply(c, v, reply),
        StageModel::WriteAnywhere(p) => anywhere_reply(c, p, reply),
        StageModel::Append(p, s) => append_reply(c, p, s, reply),
        StageModel::Pipeline(run) => pipeline_reply(c, run, reply),
        StageModel::Receive(run) => receive_reply(c, run, reply),
        StageModel::Idle(run) => idle_reply(c, run, reply),
        StageModel::Write(run, data) => record_reply(c, run, data, reply),
        StageModel::Paced(run) => paced_reply(c, run, reply),
        StageModel::Channels(run) => channels_reply(c, run, reply),
        StageModel::Joined(run) => joined_reply(c, run, reply),
        StageModel::Commit(done, s) => commit_reply(c, done, s, reply),
        StageModel::Verify(done, k, s) => verify_reply(c, done, k, s, reply),
        StageModel::Health(done) => health_reply(c, done, reply),
        StageModel::Ended => fails_with(c, Seq::empty(), misfit()),
    }
}

// ---------------------------------------------------------------------------
// The run
// ---------------------------------------------------------------------------

/// The move with which a write begins.
pub open spec fn first_turn(tape_path: Seq<char>, options: WriteOptions) -> WriteTurn {
    WriteTurn {
        context: ContextModel { tape_path, now: Seq::empty(), options, last: None },
        stage: StageModel::Inspect,
        events: Seq::empty(),
        action: WriteActionModel::Inspect,
    }
}

/// The next move of a write, given what came of the last action and whether it has been
/// asked to stop.
pub open spec fn next_turn(c: ContextModel, stage: StageModel, reply: WriteReply, cancelled: bool) -> WriteTurn {
    write_next(ContextModel { options: asked(c.options, cancelled), ..c }, stage, reply)
}

/// A session that is well-formed, and the move that leads to it.
#[verifier::opaque]
pub open spec fn moved(result: (WriteSession, WriteMove), turn: WriteTurn) -> bool {
    result.0.wf() && turn_of(result.0, result.1) == turn
}

fn no_events() -> (events: Vec<WriteEvent>)
    ensures
        event_models(events@) == Seq::<EventModel>::empty(),
{
    let events: Vec<WriteEvent> = Vec::new();
    assert(event_models(events@) =~= Seq::<EventModel>::empty());
    events
}

fn push_event(events: &mut Vec<WriteEvent>, event: WriteEvent)
    ensures
        event_models(final(events)@) == event_models(old(events)@).push(event@),
{
    let ghost before = events@;
    events.push(event);
    assert(event_models(events@) =~= event_models(before).push(event@));
}

fn one_event(event: WriteEvent) -> (events: Vec<WriteEvent>)
    ensures
        event_models(events@) == seq![event@],
{
    let mut events = no_events();
    push_event(&mut events, event);
    assert(event_models(events@) =~= seq![event@]);
    events
}

fn go(context: WriteContext, stage: WriteStage, events: Vec<WriteEvent>, action: WriteAction) -> (result:
    (WriteSession, WriteMove))
    requires
        stage.wf(),
    ensures
        moved(result, goes_on(context@, stage@, event_models(events@), action@)),
{
    proof {
        reveal(goes_on);
        reveal(moved);
    }
    let mut context = context;
    if events.len() > 0 {
        let last = events[events.len() - 1].clone();
        assert(event_models(events@).last() == last@);
        context.last = Some(last);
    }
    (WriteSession { context, stage }, WriteMove { events, action })
}

fn fail(context: WriteContext, events: Vec<WriteEvent>, message: String) -> (result: (
    WriteSession,
    WriteMove,
))
    ensures
        moved(result, fails_with(context@, event_models(events@), message@)),
{
    proof {
        reveal(fails_with);
    }
    let mut events = events;
    let ghost given = event_models(events@);
    let (failure, event) = {
        let last: Option<&WriteEvent> = if events.len() > 0 {
            Some(&events[events.len() - 1])
        } else {
            match &context.last {
                Some(event) => Some(event),
                None => None,
            }
        };
        assert(opt_event(last) == last_with(context@.last, given));
        let failure = classify_write_failure(last, message);
        let event = failure_event(last, &failure);
        (failure, event)
    };
    push_event(&mut events, event);
    go(context, WriteStage::Ended, events, WriteAction::Failed(failure))
}

fn refusal_text(reply: WriteReply) -> (message: String)
    ensures
        message@ == write_refusal(reply),
{
    match reply {
        WriteReply::Failed(message) => message,
        WriteReply::Tape(TapeReply::Failed(message)) => message,
        _ => "设备回应与命令不符".to_owned(),
    }
}

fn vci_bytes_in(reply: WriteReply) -> (result: VciReply)
    ensures
        reply_view(result) == vci_bytes_of(reply),
{
    match reply {
        WriteReply::Tape(TapeReply::Bytes(bytes)) => Ok(bytes),
        other => Err(refusal_text(other)),
    }
}

fn inspected(context: WriteContext, volume: VolumeInfo) -> (result: (WriteSession, WriteMove))
    ensures
        moved(result, inspect_reply(context@, WriteReply::Volume(volume))),
{
    proof {
        reveal(inspect_reply);
    }
    let v = match check_write_volume(volume) {
        Ok(v) => v,
        Err(message) => {
            return fail(context, no_events(), message);
        },
    };
    let located = match v.index.previous_location {
        Some(at) => at.partition == v.label.data_partition,
        None => false,
    };
    if !located {
        return fail(
            context,
            no_events(),
            "index 缺少有效的 data previous-generation location".to_owned(),
        );
    }
    let partition: u8 = v.label.index_partition;
    go(
        context,
        WriteStage::FirstVci(v),
        no_events(),
        WriteAction::Command(
            TapeCommand::ReadMam { partition, id: VOLUME_COHERENCY_INFORMATION },
        ),
    )
}

fn coherency_known(context: WriteContext, v: WriteVolume, first: VciReply, second: VciReply) -> (result:
    (WriteSession, WriteMove))
    ensures
        moved(
            result,
            coherency_checked(context@, v@, reply_view(first), reply_view(second)),
        ),
{
    proof {
        reveal(coherency_checked);
    }
    match validate_write_vci(&v.label, &v.index, first, second) {
        Err(message) => {
            return fail(context, no_events(), message);
        },
        Ok(_) => {},
    }
    match check_unlocked(&v.index) {
        Err(message) => fail(context, no_events(), message),
        Ok(_) => go(context, WriteStage::Source(v), no_events(), WriteAction::LookAtSource),
    }
}

fn planned_move(context: WriteContext, v: WriteVolume, source: WriteSource, now: String) -> (result: (
    WriteSession,
    WriteMove,
))
    ensures
        moved(result, source_known(context@, v@, source, now@)),
{
    proof {
        reveal(source_known);
    }
    let mut context = context;
    context.now = now;
    let mut v = v;
    let ghost given = v@;
    let plan = match plan_source(
        &mut v.index,
        &source,
        context.tape_path.as_str(),
        context.now.as_str(),
    ) {
        Err(message) => {
            return fail(context, no_events(), message);
        },
        Ok(plan) => plan,
    };
    let ghost state = super::plan::plan_state(v.index@.root, plan);
    assert(state.files.len() == plan.files@.len());
    match context.options.expected_source {
        Some(expected) => match validate_write_plan_expectation(
            plan.files.len(),
            plan.directories,
            plan.total_bytes,
            expected,
        ) {
            Err(message) => {
                return fail(context, no_events(), message);
            },
            Ok(_) => {},
        },
        None => {},
    }
    let progress = WriteProgress {
        files_total: plan.files.len(),
        bytes_total: plan.total_bytes,
        files_completed: 0,
        bytes_written: 0,
        partition: None,
        logical_block: None,
    };
    let events = one_event(progress.event(WritePhase::Preparing, None));
    let block: u64 = match v.index_write_block {
        None => {
            return fail(context, events, "无法确定 index 分区刷新位置".to_owned());
        },
        Some(block) => block,
    };
    let size: usize = v.label.blocksize as usize;
    let blocksize: usize = if size == 0 { 524288 } else { size };
    let facts = WriteFacts {
        data_partition: v.label.data_partition,
        index_partition: v.label.index_partition,
        blocksize,
        index_write_block: block,
        highest_uid: plan.highest_uid,
        directories: plan.directories,
    };
    let planned = PlannedWrite {
        label: v.label,
        index: v.index,
        files: plan.files,
        progress,
        facts,
    };
    go(
        context,
        WriteStage::WriteAnywhere(planned),
        events,
        WriteAction::Command(TapeCommand::EnsureWriteAnywhere),
    )
}

fn enabled(context: WriteContext, p: PlannedWrite) -> (result: (WriteSession, WriteMove))
    requires
        p.facts.blocksize > 0,
    ensures
        moved(result, write_enabled(context@, p@)),
{
    proof {
        reveal(write_enabled);
    }
    let last = match p.index.previous_location {
        Some(at) => if at.partition == p.label.data_partition {
            Some(at)
        } else {
            None
        },
        None => None,
    };
    match last {
        None => fail(
            context,
            no_events(),
            "index 缺少指向 data 分区的 previousgenerationlocation".to_owned(),
        ),
        Some(at) => {
            let (check, command) = AppendCheck::new(
                at,
                p.index.volume_uuid.as_str(),
                p.index.generation,
            );
            go(
                context,
                WriteStage::Append(p, check),
                no_events(),
                WriteAction::Command(command),
            )
        },
    }
}

fn append_moved(context: WriteContext, p: PlannedWrite, check: AppendCheck, reply: TapeReply) -> (result:
    (WriteSession, WriteMove))
    requires
        p.facts.blocksize > 0,
    ensures
        moved(
            result,
            append_moves(
                context@,
                p@,
                append_next(check@, reply).0,
                append_next(check@, reply).1,
            ),
        ),
{
    proof {
        reveal(append_moves);
    }
    let mut check = check;
    match check.next(reply) {
        AppendAction::Command(command) => go(
            context,
            WriteStage::Append(p, check),
            no_events(),
            WriteAction::Command(command),
        ),
        AppendAction::Failed(message) => fail(context, no_events(), message),
        AppendAction::Finished(append) => {
            let facts = p.facts;
            let writer = DataWriter::new(p.index, facts.data_partition, append, p.progress);
            let run = DataRun {
                facts,
                place: WritePlace { last: check.referenced(), data_append: append },
                writer,
            };
            go(
                context,
                WriteStage::Pipeline(run),
                no_events(),
                WriteAction::StartPipeline { files: p.files, blocksize: facts.blocksize },
            )
        },
    }
}

fn more_data(context: WriteContext, run: DataRun, events: Vec<WriteEvent>) -> (result: (
    WriteSession,
    WriteMove,
))
    requires
        run.facts.blocksize > 0,
    ensures
        moved(result, data_goes_on(context@, run@, event_models(events@))),
{
    if run.writer.progress.files_completed < run.writer.progress.files_total {
        go(context, WriteStage::Receive(run), events, WriteAction::Receive)
    } else {
        go(context, WriteStage::Joined(run), events, WriteAction::FinishPipeline)
    }
}

fn received(context: WriteContext, run: DataRun, message: Option<SourcePipelineMessage>) -> (result: (
    WriteSession,
    WriteMove,
))
    requires
        run.facts.blocksize > 0,
    ensures
        moved(result, message_received(context@, run@, message)),
{
    proof {
        reveal(message_received);
    }
    let mut run = run;
    match message {
        None => go(
            context,
            WriteStage::Idle(run),
            no_events(),
            WriteAction::SamplePerformance,
        ),
        Some(SourcePipelineMessage::FileStart { target, description, expected_size }) => {
            match run.writer.start_file(target, description, expected_size) {
                Ok(event) => more_data(context, run, one_event(event)),
                Err(message) => fail(context, no_events(), message),
            }
        },
        Some(SourcePipelineMessage::Data(data)) => {
            if run.writer.active.is_none() {
                return fail(
                    context,
                    no_events(),
                    "source pipeline 在 FileStart 前发送了数据".to_owned(),
                );
            }
            let kept = vstd::slice::slice_to_vec(data.as_slice());
            go(
                context,
                WriteStage::Write(run, kept),
                no_events(),
                WriteAction::Command(TapeCommand::WriteRecord { data }),
            )
        },
        Some(SourcePipelineMessage::FileEnd { actual_size }) => {
            match run.writer.end_file(actual_size) {
                Ok(event) => more_data(context, run, one_event(event)),
                Err(message) => fail(context, no_events(), message),
            }
        },
        Some(SourcePipelineMessage::Error(message)) => fail(context, no_events(), message),
    }
}

fn performance_reports(
    progress: &WriteProgress,
    file: Option<String>,
    sample: Option<WritePerformanceSample>,
) -> (events: Vec<WriteEvent>)
    ensures
        event_models(events@) == performance_events(*progress, opt_view(file), sample),
{
    match sample {
        Some(s) => one_event(progress.event_with_performance(WritePhase::WritingData, file, s)),
        None => no_events(),
    }
}

fn paced(context: WriteContext, run: DataRun, sample: Option<WritePerformanceSample>) -> (result: (
    WriteSession,
    WriteMove,
))
    requires
        run.facts.blocksize > 0,
    ensures
        moved(result, record_paced(context@, run@, sample)),
{
    proof {
        reveal(record_paced);
    }
    let mut context = context;
    let point = WriteFailpoint::AfterFirstDataRecord;
    let mut events = performance_reports(&run.writer.progress, run.writer.current_file(), sample);
    let cancelled = context.options.asked_to_stop();
    if context.options.failpoint == Some(point) || context.options.cancelpoint == Some(point)
        || cancelled {
        let event = run.writer.progress.event(
            WritePhase::WritingData,
            run.writer.current_file(),
        );
        push_event(&mut events, event);
    }
    match check_write_stop(&mut context.options, point) {
        Err(message) => fail(context, events, message),
        Ok(_) => {
            let action = WriteAction::SampleChannels {
                partition: run.facts.data_partition,
                logical_block: run.writer.position,
                bytes_written: run.writer.progress.bytes_written,
            };
            go(context, WriteStage::Channels(run), events, action)
        },
    }
}

fn begin_commit(context: WriteContext, run: DataRun, events: Vec<WriteEvent>) -> (result: (
    WriteSession,
    WriteMove,
))
    requires
        run.facts.blocksize > 0,
    ensures
        moved(result, data_done(context@, run@, event_models(events@))),
{
    proof {
        reveal(data_done);
    }
    let ghost m = run@;
    let facts = run.facts;
    let place = run.place;
    let writer = run.writer;
    let places = CommitPlaces {
        data_partition: facts.data_partition,
        index_partition: facts.index_partition,
        data_end: writer.position,
        index_write_block: facts.index_write_block,
        last: place.last,
    };
    assert(places == places_of(m));
    let progress = writer.progress;
    let (mut commit, index) = CommitRun::new(
        writer.index,
        context.now.as_str(),
        facts.highest_uid,
        places,
        facts.blocksize,
        progress,
        context.options.handed_on(),
    );
    let committed = Committed { index, hashes: writer.hashes, progress, facts, place };
    let mut events = events;
    let action = commit.go(&mut events);
    commit_moved(context, committed, commit, action, events)
}

fn commit_moved(
    context: WriteContext,
    committed: Committed,
    commit: CommitRun,
    action: CommitAction,
    events: Vec<WriteEvent>,
) -> (result: (WriteSession, WriteMove))
    ensures
        moved(
            result,
            commit_moves(
                context@,
                committed@,
                CommitTurn { state: commit@, events: Seq::empty(), action: action@ },
                event_models(events@),
            ),
        ),
        forall|first: Seq<EventModel>, more: Seq<EventModel>|
            #![trigger first + more]
            event_models(events@) == first + more ==> moved(
                result,
                commit_moves(
                    context@,
                    committed@,
                    CommitTurn { state: commit@, events: more, action: action@ },
                    first,
                ),
            ),
{
    proof {
        reveal(commit_moves);
    }
    assert(event_models(events@) + Seq::<EventModel>::empty() =~= event_models(events@));
    let mut context = context;
    let mut committed = committed;
    context.options = commit.options();
    match action {
        CommitAction::Command(command) => go(
            context,
            WriteStage::Commit(committed, commit),
            events,
            WriteAction::Command(command),
        ),
        CommitAction::Failed(message) => fail(context, events, message),
        CommitAction::Finished => {
            committed.progress = commit.progress();
            begin_verify(context, committed, events)
        },
    }
}

fn begin_verify(context: WriteContext, done: Committed, events: Vec<WriteEvent>) -> (result: (
    WriteSession,
    WriteMove,
))
    ensures
        moved(result, commit_done(context@, done@, event_models(events@))),
{
    proof {
        reveal(commit_done);
    }
    let mut context = context;
    let mut events = events;
    if context.options.verification == WriteVerification::ReadBackSha256 {
        push_event(&mut events, done.progress.event(WritePhase::Verifying, None));
        match check_write_stop(&mut context.options, WriteFailpoint::BeforeVerify) {
            Err(message) => fail(context, events, message),
            Ok(_) => verify_files(context, done, 0, events),
        }
    } else {
        go(context, WriteStage::Health(done), events, WriteAction::ReadHealth)
    }
}

fn verify_text(done: &Committed, message: &str) -> (text: String)
    ensures
        text@ == verify_fault(done@, message@),
{
    cat4(
        "写入已提交（index generation ",
        decimal(done.index.generation).as_str(),
        "、MAM VCI 已更新），但写后校验失败：",
        message,
    )
}

fn verify_files(context: WriteContext, done: Committed, k: usize, events: Vec<WriteEvent>) -> (result: (
    WriteSession,
    WriteMove,
))
    ensures
        moved(result, verify_from(context@, done@, k as nat, event_models(events@))),
    decreases done@.hashes.len() - k,
{
    let mut events = events;
    assert(done@.hashes.len() == done.hashes@.len());
    if k >= done.hashes.len() {
        return go(context, WriteStage::Health(done), events, WriteAction::ReadHealth);
    }
    assert(done@.hashes[k as int] == done.hashes@[k as int]@);
    let event = done.progress.event(WritePhase::Verifying, Some(done.hashes[k].path.clone()));
    push_event(&mut events, event);
    let check = match HashCheck::new(&done.index, &done.hashes[k]) {
        Err(message) => {
            let text = verify_text(&done, message.as_str());
            return fail(context, events, text);
        },
        Ok(check) => check,
    };
    assert(first_hash_state(done@, k as nat) == Some(check.state()));
    match check.go_on() {
        (HashAction::Command(command), Some(check)) => go(
            context,
            WriteStage::Verify(done, k, check),
            events,
            WriteAction::Command(command),
        ),
        (HashAction::Command(_), None) => {
            assert(false);
            fail(context, events, "设备回应与命令不符".to_owned())
        },
        (HashAction::Finished(Ok(_)), _) => verify_files(context, done, k + 1, events),
        (HashAction::Finished(Err(message)), _) => {
            let text = verify_text(&done, message.as_str());
            fail(context, events, text)
        },
    }
}

fn verify_moved(context: WriteContext, done: Committed, k: usize, check: HashCheck, reply: TapeReply) -> (result:
    (WriteSession, WriteMove))
    requires
        check.wf(),
        k < done.hashes@.len(),
    ensures
        moved(
            result,
            verify_moves(
                context@,
                done@,
                k as nat,
                hash_reply(check.state(), reply).0,
                hash_reply(check.state(), reply).1,
            ),
        ),
{
    proof {
        reveal(verify_moves);
    }
    match check.next(reply) {
        (HashAction::Command(command), Some(check)) => go(
            context,
            WriteStage::Verify(done, k, check),
            no_events(),
            WriteAction::Command(command),
        ),
        (HashAction::Command(_), None) => {
            assert(false);
            fail(context, no_events(), "设备回应与命令不符".to_owned())
        },
        (HashAction::Finished(Ok(_)), _) => {
            assert(k < done.hashes.len());
            verify_files(context, done, k + 1, no_events())
        },
        (HashAction::Finished(Err(message)), _) => {
            let text = verify_text(&done, message.as_str());
            fail(context, no_events(), text)
        },
    }
}

fn finished(context: WriteContext, done: Committed) -> (result: (WriteSession, WriteMove))
    ensures
        moved(result, write_done(context@, done@)),
{
    proof {
        reveal(write_done);
    }
    let events = one_event(done.progress.event(WritePhase::Completed, None));
    let summary = WriteSummary {
        bytes: done.progress.bytes_written,
        files: done.progress.files_total,
        directories: done.facts.directories,
        file_uid: done.facts.highest_uid,
        generation: done.index.generation,
        data_start_block: done.place.data_append,
        hashes: done.hashes,
        verification: context.options.verification,
    };
    go(context, WriteStage::Ended, events, WriteAction::Finished(summary))
}

fn on_inspect(context: WriteContext, reply: WriteReply) -> (result: (WriteSession, WriteMove))
    ensures
        moved(result, inspect_reply(context@, reply)),
{
    proof {
        reveal(inspect_reply);
    }
    match reply {
        WriteReply::Volume(volume) => inspected(context, volume),
        other => fail(context, no_events(), refusal_text(other)),
    }
}

fn on_first_vci(context: WriteContext, v: WriteVolume, reply: WriteReply) -> (result: (WriteSession, WriteMove))
    ensures
        moved(result, first_vci_reply(context@, v@, reply)),
{
    proof {
        reveal(first_vci_reply);
    }
    let first = vci_bytes_in(reply);
    let partition: u8 = v.label.data_partition;
    go(
        context,
        WriteStage::SecondVci(v, first),
        no_events(),
        WriteAction::Command(
            TapeCommand::ReadMam { partition, id: VOLUME_COHERENCY_INFORMATION },
        ),
    )
}

fn on_source(context: WriteContext, v: WriteVolume, reply: WriteReply) -> (result: (WriteSession, WriteMove))
    ensures
        moved(result, source_reply(context@, v@, reply)),
{
    proof {
        reveal(source_reply);
    }
    match reply {
        WriteReply::Source { source, now } => planned_move(context, v, source, now),
        other => fail(context, no_events(), refusal_text(other)),
    }
}

fn on_write_anywhere(context: WriteContext, p: PlannedWrite, reply: WriteReply) -> (result: (WriteSession, WriteMove))
    requires
        p.facts.blocksize > 0,
    ensures
        moved(result, anywhere_reply(context@, p@, reply)),
{
    proof {
        reveal(anywhere_reply);
    }
    let fault = match reply {
        WriteReply::Tape(r) => failure_of(r),
        other => Some(refusal_text(other)),
    };
    match fault {
        None => enabled(context, p),
        Some(message) => fail(
            context,
            no_events(),
            cat2("无法启用 LTFS write-anywhere 模式: ", message.as_str()),
        ),
    }
}

fn on_append(context: WriteContext, p: PlannedWrite, check: AppendCheck, reply: WriteReply) -> (result: (WriteSession, WriteMove))
    requires
        p.facts.blocksize > 0,
    ensures
        moved(result, append_reply(context@, p@, check@, reply)),
{
    proof {
        reveal(append_reply);
    }
    match reply {
        WriteReply::Tape(r) => append_moved(context, p, check, r),
        other => fail(context, no_events(), refusal_text(other)),
    }
}

fn on_pipeline(context: WriteContext, run: DataRun, reply: WriteReply) -> (result: (WriteSession, WriteMove))
    requires
        run.facts.blocksize > 0,
    ensures
        moved(result, pipeline_reply(context@, run@, reply)),
{
    proof {
        reveal(pipeline_reply);
    }
    match reply {
        WriteReply::Done => more_data(context, run, no_events()),
        other => fail(context, no_events(), refusal_text(other)),
    }
}

fn on_receive(context: WriteContext, run: DataRun, reply: WriteReply) -> (result: (WriteSession, WriteMove))
    requires
        run.facts.blocksize > 0,
    ensures
        moved(result, receive_reply(context@, run@, reply)),
{
    proof {
        reveal(receive_reply);
    }
    match reply {
        WriteReply::Message(message) => received(context, run, message),
        other => fail(context, no_events(), refusal_text(other)),
    }
}

fn on_idle(context: WriteContext, run: DataRun, reply: WriteReply) -> (result: (WriteSession, WriteMove))
    requires
        run.facts.blocksize > 0,
    ensures
        moved(result, idle_reply(context@, run@, reply)),
{
    proof {
        reveal(idle_reply);
    }
    match reply {
        WriteReply::Performance(sample) => {
            let events = performance_reports(
                &run.writer.progress,
                run.writer.current_file(),
                sample,
            );
            more_data(context, run, events)
        },
        other => fail(context, no_events(), refusal_text(other)),
    }
}

fn on_write(context: WriteContext, run: DataRun, data: Vec<u8>, reply: WriteReply) -> (result: (WriteSession, WriteMove))
    requires
        run.facts.blocksize > 0,
        run.writer@.active is Some,
    ensures
        moved(result, record_reply(context@, run@, data@, reply)),
{
    proof {
        reveal(record_reply);
    }
    match reply {
        WriteReply::Tape(TapeReply::Done) => {
            let mut run = run;
            run.writer.written(data.as_slice());
            go(context, WriteStage::Paced(run), no_events(), WriteAction::SamplePerformance)
        },
        WriteReply::Fault(error) => {
            let message = run.writer.refused(&error);
            fail(context, no_events(), message)
        },
        other => fail(context, no_events(), refusal_text(other)),
    }
}

fn on_paced(context: WriteContext, run: DataRun, reply: WriteReply) -> (result: (WriteSession, WriteMove))
    requires
        run.facts.blocksize > 0,
    ensures
        moved(result, paced_reply(context@, run@, reply)),
{
    proof {
        reveal(paced_reply);
    }
    match reply {
        WriteReply::Performance(sample) => paced(context, run, sample),
        other => fail(context, no_events(), refusal_text(other)),
    }
}

fn on_channels(context: WriteContext, run: DataRun, reply: WriteReply) -> (result: (WriteSession, WriteMove))
    requires
        run.facts.blocksize > 0,
    ensures
        moved(result, channels_reply(context@, run@, reply)),
{
    proof {
        reveal(channels_reply);
    }
    match reply {
        WriteReply::Channels(sample) => {
            let events = match sample {
                Some(s) => one_event(
                    run.writer.progress.event_with_telemetry(
                        WritePhase::WritingData,
                        run.writer.current_file(),
                        s,
                    ),
                ),
                None => no_events(),
            };
            more_data(context, run, events)
        },
        other => fail(context, no_events(), refusal_text(other)),
    }
}

fn on_joined(context: WriteContext, run: DataRun, reply: WriteReply) -> (result: (WriteSession, WriteMove))
    requires
        run.facts.blocksize > 0,
    ensures
        moved(result, joined_reply(context@, run@, reply)),
{
    proof {
        reveal(joined_reply);
    }
    match reply {
        WriteReply::Performance(sample) => {
            let events = performance_reports(&run.writer.progress, None, sample);
            begin_commit(context, run, events)
        },
        other => fail(context, no_events(), refusal_text(other)),
    }
}

fn on_commit(context: WriteContext, done: Committed, commit: CommitRun, reply: WriteReply) -> (result: (WriteSession, WriteMove))
    ensures
        moved(result, commit_reply(context@, done@, commit@, reply)),
{
    proof {
        reveal(commit_reply);
    }
    match reply {
        WriteReply::Tape(r) => {
            let mut commit = commit;
            commit.set_options(context.options.handed_on());
            let mut events = no_events();
            let action = commit.next(r, &mut events);
            commit_moved(context, done, commit, action, events)
        },
        other => fail(context, no_events(), refusal_text(other)),
    }
}

fn on_verify(context: WriteContext, done: Committed, k: usize, check: HashCheck, reply: WriteReply) -> (result: (WriteSession, WriteMove))
    requires
        check.wf(),
        k < done.hashes@.len(),
    ensures
        moved(result, verify_reply(context@, done@, k as nat, check.state(), reply)),
{
    proof {
        reveal(verify_reply);
    }
    match reply {
        WriteReply::Tape(r) => verify_moved(context, done, k, check, r),
        other => fail(context, no_events(), refusal_text(other)),
    }
}

fn on_health(context: WriteContext, done: Committed, reply: WriteReply) -> (result: (WriteSession, WriteMove))
    ensures
        moved(result, health_reply(context@, done@, reply)),
{
    proof {
        reveal(health_reply);
    }
    match reply {
        WriteReply::Done => finished(context, done),
        other => fail(context, no_events(), refusal_text(other)),
    }
}

fn dispatch(context: WriteContext, stage: WriteStage, reply: WriteReply) -> (result: (
    WriteSession,
    WriteMove,
))
    requires
        stage.wf(),
    ensures
        moved(result, write_next(context@, stage@, reply)),
{
    match stage {
        WriteStage::Inspect => on_inspect(context, reply),
        WriteStage::FirstVci(v) => on_first_vci(context, v, reply),
        WriteStage::SecondVci(v, first) => coherency_known(
            context,
            v,
            first,
            vci_bytes_in(reply),
        ),
        WriteStage::Source(v) => on_source(context, v, reply),
        WriteStage::WriteAnywhere(p) => on_write_anywhere(context, p, reply),
        WriteStage::Append(p, check) => on_append(context, p, check, reply),
        WriteStage::Pipeline(run) => on_pipeline(context, run, reply),
        WriteStage::Receive(run) => on_receive(context, run, reply),
        WriteStage::Idle(run) => on_idle(context, run, reply),
        WriteStage::Write(run, data) => on_write(context, run, data, reply),
        WriteStage::Paced(run) => on_paced(context, run, reply),
        WriteStage::Channels(run) => on_channels(context, run, reply),
        WriteStage::Joined(run) => on_joined(context, run, reply),
        WriteStage::Commit(done, commit) => on_commit(context, done, commit, reply),
        WriteStage::Verify(done, k, check) => on_verify(context, done, k, check, reply),
        WriteStage::Health(done) => on_health(context, done, reply),
        WriteStage::Ended => fail(context, no_events(), "设备回应与命令不符".to_owned()),
    }
}

impl WriteSession {
    /// Begins a write to a path or directory of the volume in the drive.
    pub fn new(tape_path: &str, options: WriteOptions) -> (result: (WriteSession, WriteMove))
        ensures
            result.0.wf(),
            turn_of(result.0, result.1) == first_turn(tape_path@, options),
    {
        let context = WriteContext {
            tape_path: tape_path.to_owned(),
            now: String::new(),
            options,
            last: None,
        };
        proof {
            reveal(goes_on);
            reveal(moved);
        }
        assert(context@.now =~= Seq::<char>::empty());
        go(context, WriteStage::Inspect, no_events(), WriteAction::Inspect)
    }

    /// The next move, given what came of the last action and whether the write has been
    /// asked to stop.
    pub fn run(self, reply: WriteReply, cancelled: bool) -> (result: (WriteSession, WriteMove))
        requires
            self.wf(),
        ensures
            result.0.wf(),
            turn_of(result.0, result.1) == next_turn(
                self.context_spec(),
                self.stage_spec(),
                reply,
                cancelled,
            ),
    {
        let WriteSession { context, stage } = self;
        let mut context = context;
        match context.options.cancellation {
            Some(token) => {
                context.options.cancellation = Some(
                    CancellationToken { requested: token.requested || cancelled },
                );
            },
            None => {},
        }
        let ghost after = ContextModel {
            options: asked(self.context@.options, cancelled),
            ..self.context@
        };
        assert(context@ =~= after);
        proof {
            reveal(moved);
        }
        dispatch(context, stage, reply)
    }
}

// ---------------------------------------------------------------------------
// Laws
// ---------------------------------------------------------------------------

/// A write that can be asked to stop learns of the request with the step that follows it,
/// and no later step takes the request back.
pub proof fn stop_request_is_heard(options: WriteOptions, cancelled: bool)
    ensures
        is_cancelled(options) ==> is_cancelled(asked(options, cancelled)),
        cancelled && options.cancellation is Some ==> is_cancelled(asked(options, cancelled)),
        !cancelled ==> is_cancelled(asked(options, cancelled)) == is_cancelled(options),
{
}

/// A command that changes what the tape holds.
pub open spec fn changes_tape(action: WriteActionModel) -> bool {
    match action {
        WriteActionModel::Command(CommandModel::WriteRecord { .. }) => true,
        WriteActionModel::Command(CommandModel::WriteFilemark) => true,
        WriteActionModel::Command(CommandModel::WriteMam { .. }) => true,
        _ => false,
    }
}

/// Nothing on tape is changed before the volume has been found consistent and unlocked,
/// the source planned, and the end of the data checked.
pub proof fn nothing_changes_before_checks(c: ContextModel, stage: StageModel, reply: WriteReply)
    requires
        stage is Inspect || stage is FirstVci || stage is SecondVci || stage is Source
            || stage is WriteAnywhere,
    ensures
        !changes_tape(write_next(c, stage, reply).action),
{
    reveal(goes_on);
    reveal(fails_with);
    reveal(inspect_reply);
    reveal(first_vci_reply);
    reveal(coherency_checked);
    reveal(source_reply);
    reveal(source_known);
    reveal(anywhere_reply);
    reveal(write_enabled);
}

/// The check for the end of the data changes nothing on tape, and data is written only
/// once it has succeeded.
pub proof fn append_check_changes_nothing(
    c: ContextModel,
    p: PlannedWriteModel,
    s: AppendState,
    reply: WriteReply,
)
    ensures
        ({
            let turn = write_next(c, StageModel::Append(p, s), reply);
            &&& !changes_tape(turn.action)
            &&& turn.stage is Append || turn.stage is Ended || (turn.stage is Pipeline && (reply
                matches WriteReply::Tape(r) && append_next(s, r).1 is Finished))
        }),
{
    reveal(goes_on);
    reveal(fails_with);
    reveal(append_reply);
    reveal(append_moves);
}

/// A write that fails says so in its last event, and does nothing more.
pub proof fn failures_are_reported(c: ContextModel, events: Seq<EventModel>, message: Seq<char>)
    ensures
        ({
            let turn = fails_with(c, events, message);
            &&& turn.stage is Ended
            &&& turn.events.last().phase is Failed
            &&& turn.action matches WriteActionModel::Failed(f) && turn.events.last().failure
                == Some(f)
        }),
{
    reveal(goes_on);
    reveal(fails_with);
}

/// A record counts as written, and goes into the digest of its file, only once the drive
/// has taken it.
pub proof fn records_count_once_taken(
    c: ContextModel,
    run: DataRunModel,
    data: Seq<u8>,
    reply: WriteReply,
)
    requires
        run.writer.active is Some,
    ensures
        ({
            let turn = write_next(c, StageModel::Write(run, data), reply);
            if reply == WriteReply::Tape(TapeReply::Done) {
                turn.stage matches StageModel::Paced(after) && after.writer.active is Some
                    && after.writer.active->0.bytes == run.writer.active->0.bytes + data
            } else {
                turn.stage is Ended && turn.action is Failed
            }
        }),
{
    reveal(goes_on);
    reveal(fails_with);
    reveal(record_reply);
}

} // verus!
