//! Inspecting and diagnosing an LTFS volume.
use vstd::prelude::*;
use vstd::string::*;

use super::flow::{failure, failure_of, misfit, refusal, refusal_of, CommandModel, TapeCommand, TapeReply};
use super::probe::{
    candidate_record, candidate_records, index_of, label_of, CandidateRecord, LatestAction,
    LatestActionModel, ProbeAction, ProbeActionModel, ReadAtAction, ReadAtActionModel, ScanAction,
    ScanActionModel,
};
use super::volume::{
    candidate_models, classify_volume_consistency, consistency_spec, safe_spec, vci_models,
    CandidateModel, IndexCandidateDiagnostic, VciCopy, VciCopyModel, VolumeConsistency,
    VolumeDiagnosis, VolumeInfo,
};
use crate::ltfs::index::IndexModel;
use crate::ltfs::label::{AnsiLabel, Label, LabelModel};
use crate::ltfs::mam::{vci_parsed, VolumeCoherencyInformation, VOLUME_COHERENCY_INFORMATION};
use crate::text::{
    cat2, cat3, cat4, cat5, debug_of, debug_text, decimal, decimal_spec, opt_view, same, views,
};

verus! {

// ---------------------------------------------------------------------------
// Inspection
// ---------------------------------------------------------------------------

/// The model of what an inspection found.
#[verifier::ext_equal]
pub struct VolumeModel {
    pub recognized: bool,
    pub reason: Option<Seq<char>>,
    pub warnings: Seq<Seq<char>>,
    pub ansi_barcode: Option<Seq<char>>,
    pub label: Option<LabelModel>,
    pub index: Option<IndexModel>,
    pub index_write_block: Option<u64>,
}

impl View for VolumeInfo {
    type V = VolumeModel;

    open spec fn view(&self) -> VolumeModel {
        VolumeModel {
            recognized: self.recognized,
            reason: opt_view(self.reason),
            warnings: views(self.warnings@),
            ansi_barcode: opt_view(self.ansi_barcode),
            label: label_of(self.label),
            index: index_of(self.index),
            index_write_block: self.index_write_block,
        }
    }
}

/// Where an inspection stands: what it waits for.
#[derive(Debug, Clone, Copy, PartialEq, Eq, Structural)]
pub enum InspectStage {
    SetBlock,
    Rewind,
    Position,
    FirstProbe,
    SecondProbe,
    Scan { partition: u8 },
    Ended,
}

/// A label that was found, with the partition that it was found on.
pub struct FoundLabel {
    pub partition: u8,
    pub ansi: AnsiLabel,
    pub label: Label,
}

/// The model of a label that was found.
#[verifier::ext_equal]
pub struct FoundModel {
    pub partition: u8,
    pub barcode: Seq<char>,
    pub label: LabelModel,
}

impl View for FoundLabel {
    type V = FoundModel;

    open spec fn view(&self) -> FoundModel {
        FoundModel { partition: self.partition, barcode: self.ansi.barcode@, label: self.label@ }
    }
}

/// An inspection of the volume in a drive.
pub struct VolumeInspection {
    stage: InspectStage,
    start_partition: u8,
    first: Option<FoundLabel>,
    second: Option<FoundLabel>,
    warnings: Vec<String>,
}

/// The model of an inspection.
#[verifier::ext_equal]
pub struct InspectState {
    pub stage: InspectStage,
    pub start_partition: u8,
    pub first: Option<FoundModel>,
    pub second: Option<FoundModel>,
    pub warnings: Seq<Seq<char>>,
}

pub open spec fn opt_found(f: Option<FoundLabel>) -> Option<FoundModel> {
    match f {
        Some(l) => Some(l@),
        None => None,
    }
}

impl View for VolumeInspection {
    type V = InspectState;

    closed spec fn view(&self) -> InspectState {
        InspectState {
            stage: self.stage,
            start_partition: self.start_partition,
            first: opt_found(self.first),
            second: opt_found(self.second),
            warnings: views(self.warnings@),
        }
    }
}

/// What an inspection is told: what came of a command, a probe, or a scan.
#[derive(Debug, PartialEq, Eq)]
pub enum InspectReply {
    Tape(TapeReply),
    Probed(ProbeAction),
    Scanned(LatestAction),
}

/// What an inspection does next.
#[derive(Debug, PartialEq, Eq)]
pub enum InspectAction {
    Command(TapeCommand),
    /// Look for the label of a partition.
    Probe { partition: u8 },
    /// Look for the newest index of a partition.
    Scan { partition: u8 },
    Finished(VolumeInfo),
    Failed(String),
}

pub enum InspectActionModel {
    Command(CommandModel),
    Probe { partition: u8 },
    Scan { partition: u8 },
    Finished(VolumeModel),
    Failed(Seq<char>),
}

impl View for InspectAction {
    type V = InspectActionModel;

    open spec fn view(&self) -> InspectActionModel {
        match *self {
            InspectAction::Command(command) => InspectActionModel::Command(command@),
            InspectAction::Probe { partition } => InspectActionModel::Probe { partition },
            InspectAction::Scan { partition } => InspectActionModel::Scan { partition },
            InspectAction::Finished(info) => InspectActionModel::Finished(info@),
            InspectAction::Failed(message) => InspectActionModel::Failed(message@),
        }
    }
}

/// The failure of a command in a reply to an inspection.
pub open spec fn inspect_failure(reply: InspectReply) -> Option<Seq<char>> {
    match reply {
        InspectReply::Tape(r) => failure(r),
        _ => Some(misfit()),
    }
}

/// The other of the two partitions.
pub open spec fn other_partition(partition: u8) -> u8 {
    if partition == 0 {
        1
    } else {
        0
    }
}

/// The label names its own partition as the index partition.
pub open spec fn on_index_partition(f: FoundModel) -> bool {
    f.label.this_partition == f.label.index_partition
}

/// What a probe of a partition adds.
pub open spec fn probe_found(partition: u8, outcome: ProbeActionModel) -> Option<FoundModel> {
    match outcome {
        ProbeActionModel::Found(barcode, label) => Some(FoundModel { partition, barcode, label }),
        _ => None,
    }
}

pub open spec fn probe_warning(warnings: Seq<Seq<char>>, partition: u8, outcome: ProbeActionModel) -> Seq<
    Seq<char>,
> {
    match outcome {
        ProbeActionModel::Failed(message) => warnings.push(
            "分区 "@ + decimal_spec(partition as nat) + " 探测失败: "@ + message,
        ),
        _ => warnings,
    }
}

/// The label that counts: the first that was found.
pub open spec fn main_label(s: InspectState) -> Option<FoundModel> {
    match s.first {
        Some(f) => Some(f),
        None => s.second,
    }
}

/// The partition whose label names it as the index partition; the partition that the tape
/// stood on where none does.
pub open spec fn index_partition_of(s: InspectState, logical: u8) -> u8 {
    match (s.first, s.second) {
        (Some(f), _) if f.label.this_partition == logical => f.partition,
        (_, Some(f)) if f.label.this_partition == logical => f.partition,
        _ => s.start_partition,
    }
}

/// Behind the probes: without a label the volume is not recognized, else the index
/// partition is scanned.
pub open spec fn probes_done(s: InspectState) -> (InspectState, InspectActionModel) {
    match main_label(s) {
        None => (
            InspectState { stage: InspectStage::Ended, warnings: Seq::empty(), ..s },
            InspectActionModel::Finished(
                VolumeModel {
                    recognized: false,
                    reason: Some(
                        "两个分区均未找到有效 LTFS label（无 ANSI \"LTFS\" 签名）。"@,
                    ),
                    warnings: s.warnings,
                    ansi_barcode: None,
                    label: None,
                    index: None,
                    index_write_block: None,
                },
            ),
        ),
        Some(f) => {
            let partition = index_partition_of(s, f.label.index_partition);
            (
                InspectState { stage: InspectStage::Scan { partition }, ..s },
                InspectActionModel::Scan { partition },
            )
        },
    }
}

/// The outcome of the scan, with the warnings that it leaves.
pub open spec fn scan_warnings(
    warnings: Seq<Seq<char>>,
    partition: u8,
    outcome: LatestActionModel,
) -> Seq<Seq<char>> {
    let missing = "已识别 LTFS label，但未找到可解析的 index。"@;
    match outcome {
        LatestActionModel::Finished(Some(_), _) => warnings,
        LatestActionModel::Failed(message) => warnings.push(
            "分区 "@ + decimal_spec(partition as nat) + " index 扫描失败: "@ + message,
        ).push(missing),
        _ => warnings.push(missing),
    }
}

/// What an inspection found.
pub open spec fn inspection_result(
    s: InspectState,
    partition: u8,
    outcome: LatestActionModel,
) -> VolumeModel {
    VolumeModel {
        recognized: true,
        reason: None,
        warnings: scan_warnings(s.warnings, partition, outcome),
        ansi_barcode: match main_label(s) {
            Some(f) => Some(f.barcode),
            None => None,
        },
        label: match main_label(s) {
            Some(f) => Some(f.label),
            None => None,
        },
        index: match outcome {
            LatestActionModel::Finished(Some(index), _) => Some(index),
            _ => None,
        },
        index_write_block: match outcome {
            LatestActionModel::Finished(Some(_), block) => block,
            _ => None,
        },
    }
}

pub open spec fn inspect_fails(s: InspectState, message: Seq<char>) -> (
    InspectState,
    InspectActionModel,
) {
    (InspectState { stage: InspectStage::Ended, ..s }, InspectActionModel::Failed(message))
}

/// The next move of an inspection. The partition that the tape stands on is probed first;
/// the other one only where the first is not the index partition.
pub open spec fn inspect_next(s: InspectState, reply: InspectReply) -> (
    InspectState,
    InspectActionModel,
) {
    match s.stage {
        InspectStage::SetBlock => match inspect_failure(reply) {
            None => (
                InspectState { stage: InspectStage::Rewind, ..s },
                InspectActionModel::Command(CommandModel::Rewind),
            ),
            Some(message) => inspect_fails(s, message),
        },
        InspectStage::Rewind => match inspect_failure(reply) {
            None => (
                InspectState { stage: InspectStage::Position, ..s },
                InspectActionModel::Command(CommandModel::ReadPosition),
            ),
            Some(message) => inspect_fails(s, message),
        },
        InspectStage::Position => match reply {
            InspectReply::Tape(TapeReply::Position(at)) => if at.partition <= 1 {
                (
                    InspectState {
                        stage: InspectStage::FirstProbe,
                        start_partition: at.partition as u8,
                        ..s
                    },
                    InspectActionModel::Probe { partition: at.partition as u8 },
                )
            } else {
                inspect_fails(s, misfit())
            },
            InspectReply::Tape(r) => inspect_fails(s, refusal(r)),
            _ => inspect_fails(s, misfit()),
        },
        InspectStage::FirstProbe => match reply {
            InspectReply::Probed(outcome) => {
                let t = InspectState {
                    first: probe_found(s.start_partition, outcome@),
                    warnings: probe_warning(s.warnings, s.start_partition, outcome@),
                    ..s
                };
                match t.first {
                    Some(f) if on_index_partition(f) => probes_done(t),
                    _ => (
                        InspectState { stage: InspectStage::SecondProbe, ..t },
                        InspectActionModel::Probe { partition: other_partition(s.start_partition) },
                    ),
                }
            },
            _ => inspect_fails(s, misfit()),
        },
        InspectStage::SecondProbe => match reply {
            InspectReply::Probed(outcome) => {
                let partition = other_partition(s.start_partition);
                probes_done(
                    InspectState {
                        second: probe_found(partition, outcome@),
                        warnings: probe_warning(s.warnings, partition, outcome@),
                        ..s
                    },
                )
            },
            _ => inspect_fails(s, misfit()),
        },
        InspectStage::Scan { partition } => match reply {
            InspectReply::Scanned(outcome) => (
                InspectState {
                    stage: InspectStage::Ended,
                    first: None,
                    second: None,
                    warnings: Seq::empty(),
                    ..s
                },
                InspectActionModel::Finished(inspection_result(s, partition, outcome@)),
            ),
            _ => inspect_fails(s, misfit()),
        },
        InspectStage::Ended => inspect_fails(s, misfit()),
    }
}

fn inspect_failure_of(reply: InspectReply) -> (message: Option<String>)
    ensures
        opt_view(message) == inspect_failure(reply),
{
    match reply {
        InspectReply::Tape(r) => failure_of(r),
        _ => Some("设备回应与命令不符".to_owned()),
    }
}

fn push_text(list: &mut Vec<String>, text: String)
    ensures
        views(final(list)@) == views(old(list)@).push(text@),
{
    let ghost before = list@;
    list.push(text);
    assert(views(list@) =~= views(before).push(text@));
}

fn take_texts(list: &mut Vec<String>) -> (taken: Vec<String>)
    ensures
        taken@ == old(list)@,
        final(list)@ == Seq::<String>::empty(),
        views(final(list)@) == Seq::<Seq<char>>::empty(),
{
    let mut taken: Vec<String> = Vec::new();
    taken.append(list);
    assert(taken@ =~= old(list)@);
    assert(views(list@) =~= Seq::<Seq<char>>::empty());
    taken
}

/// An inspection at its start, and the command that begins it.
pub open spec fn inspect_begin() -> (InspectState, InspectActionModel) {
    (
        InspectState {
            stage: InspectStage::SetBlock,
            start_partition: 0,
            first: None,
            second: None,
            warnings: Seq::empty(),
        },
        InspectActionModel::Command(CommandModel::SetVariableBlock),
    )
}

impl VolumeInspection {
    /// Begins an inspection.
    pub fn new() -> (result: (VolumeInspection, TapeCommand))
        ensures
            (result.0@, InspectActionModel::Command(result.1@)) == inspect_begin(),
    {
        let warnings: Vec<String> = Vec::new();
        assert(views(warnings@) =~= Seq::<Seq<char>>::empty());
        (
            VolumeInspection {
                stage: InspectStage::SetBlock,
                start_partition: 0,
                first: None,
                second: None,
                warnings,
            },
            TapeCommand::SetVariableBlock,
        )
    }

    fn fail(&mut self, message: String) -> (action: InspectAction)
        ensures
            (final(self)@, action@) == inspect_fails(old(self)@, message@),
    {
        self.stage = InspectStage::Ended;
        InspectAction::Failed(message)
    }

    fn misfit(&mut self) -> (action: InspectAction)
        ensures
            (final(self)@, action@) == inspect_fails(old(self)@, misfit()),
    {
        self.fail("设备回应与命令不符".to_owned())
    }

    fn take_probe(&mut self, partition: u8, outcome: ProbeAction) -> (found: Option<FoundLabel>)
        ensures
            opt_found(found) == probe_found(partition, outcome@),
            final(self)@ == (InspectState {
                warnings: probe_warning(old(self)@.warnings, partition, outcome@),
                ..old(self)@
            }),
    {
        match outcome {
            ProbeAction::Found(ansi, label) => Some(FoundLabel { partition, ansi, label }),
            ProbeAction::Failed(message) => {
                let warning = cat4(
                    "分区 ",
                    decimal(partition as u64).as_str(),
                    " 探测失败: ",
                    message.as_str(),
                );
                push_text(&mut self.warnings, warning);
                None
            },
            _ => None,
        }
    }

    fn probed(&mut self) -> (action: InspectAction)
        ensures
            (final(self)@, action@) == probes_done(old(self)@),
    {
        let logical: u8 = match (&self.first, &self.second) {
            (Some(f), _) => f.label.index_partition,
            (None, Some(f)) => f.label.index_partition,
            (None, None) => {
                self.stage = InspectStage::Ended;
                let warnings = take_texts(&mut self.warnings);
                return InspectAction::Finished(
                    VolumeInfo {
                        recognized: false,
                        reason: Some(
                            "两个分区均未找到有效 LTFS label（无 ANSI \"LTFS\" 签名）。".to_owned(),
                        ),
                        warnings,
                        ansi_barcode: None,
                        label: None,
                        index: None,
                        index_write_block: None,
                    },
                );
            },
        };
        let mut partition: u8 = self.start_partition;
        match &self.second {
            Some(f) => {
                if f.label.this_partition == logical {
                    partition = f.partition;
                }
            },
            None => {},
        }
        match &self.first {
            Some(f) => {
                if f.label.this_partition == logical {
                    partition = f.partition;
                }
            },
            None => {},
        }
        self.stage = InspectStage::Scan { partition };
        InspectAction::Scan { partition }
    }

    fn finish(&mut self, partition: u8, outcome: LatestAction) -> (action: InspectAction)
        ensures
            (final(self)@, action@) == (
                InspectState {
                    stage: InspectStage::Ended,
                    first: None,
                    second: None,
                    warnings: Seq::empty(),
                    ..old(self)@
                },
                InspectActionModel::Finished(inspection_result(old(self)@, partition, outcome@)),
            ),
    {
        let first = self.first.take();
        let second = self.second.take();
        let main = match first {
            Some(f) => Some(f),
            None => second,
        };
        let (ansi_barcode, label) = match main {
            Some(f) => (Some(f.ansi.barcode), Some(f.label)),
            None => (None, None),
        };
        let (index, index_write_block) = match outcome {
            LatestAction::Finished(Some(index), block) => (Some(index), block),
            LatestAction::Failed(message) => {
                push_text(
                    &mut self.warnings,
                    cat4(
                        "分区 ",
                        decimal(partition as u64).as_str(),
                        " index 扫描失败: ",
                        message.as_str(),
                    ),
                );
                push_text(
                    &mut self.warnings,
                    "已识别 LTFS label，但未找到可解析的 index。".to_owned(),
                );
                (None, None)
            },
            _ => {
                push_text(
                    &mut self.warnings,
                    "已识别 LTFS label，但未找到可解析的 index。".to_owned(),
                );
                (None, None)
            },
        };
        let warnings = take_texts(&mut self.warnings);
        self.stage = InspectStage::Ended;
        InspectAction::Finished(
            VolumeInfo {
                recognized: true,
                reason: None,
                warnings,
                ansi_barcode,
                label,
                index,
                index_write_block,
            },
        )
    }

    /// The next move, given what came of the last one.
    pub fn next(&mut self, reply: InspectReply) -> (action: InspectAction)
        ensures
            (final(self)@, action@) == inspect_next(old(self)@, reply),
    {
        match self.stage {
            InspectStage::SetBlock => match inspect_failure_of(reply) {
                None => {
                    self.stage = InspectStage::Rewind;
                    InspectAction::Command(TapeCommand::Rewind)
                },
                Some(message) => self.fail(message),
            },
            InspectStage::Rewind => match inspect_failure_of(reply) {
                None => {
                    self.stage = InspectStage::Position;
                    InspectAction::Command(TapeCommand::ReadPosition)
                },
                Some(message) => self.fail(message),
            },
            InspectStage::Position => match reply {
                InspectReply::Tape(TapeReply::Position(at)) => {
                    if at.partition <= 1 {
                        self.stage = InspectStage::FirstProbe;
                        self.start_partition = at.partition as u8;
                        InspectAction::Probe { partition: at.partition as u8 }
                    } else {
                        self.misfit()
                    }
                },
                InspectReply::Tape(r) => {
                    let message = refusal_of(r);
                    self.fail(message)
                },
                _ => self.misfit(),
            },
            InspectStage::FirstProbe => match reply {
                InspectReply::Probed(outcome) => {
                    let partition: u8 = self.start_partition;
                    self.first = self.take_probe(partition, outcome);
                    let done = match &self.first {
                        Some(f) => f.label.this_partition == f.label.index_partition,
                        None => false,
                    };
                    if done {
                        return self.probed();
                    }
                    self.stage = InspectStage::SecondProbe;
                    InspectAction::Probe { partition: if partition == 0 { 1 } else { 0 } }
                },
                _ => self.misfit(),
            },
            InspectStage::SecondProbe => match reply {
                InspectReply::Probed(outcome) => {
                    let partition: u8 = if self.start_partition == 0 { 1 } else { 0 };
                    self.second = self.take_probe(partition, outcome);
                    self.probed()
                },
                _ => self.misfit(),
            },
            InspectStage::Scan { partition } => match reply {
                InspectReply::Scanned(outcome) => self.finish(partition, outcome),
                _ => self.misfit(),
            },
            InspectStage::Ended => self.misfit(),
        }
    }
}

// ---------------------------------------------------------------------------
// Diagnosis
// ---------------------------------------------------------------------------

/// Where a diagnosis stands: what it waits for.
#[derive(Debug, Clone, Copy, PartialEq, Eq, Structural)]
pub enum DiagnoseStage {
    SetBlock,
    Probe { partition: u8 },
    Coherency { partition: u8 },
    Scan { partition: u8 },
    Target { block: u64 },
    Ended,
}

/// The label of a partition, by the volume that it names.
pub struct LabelUuid {
    pub partition: u8,
    pub uuid: String,
}

/// A diagnosis of the volume in a drive. It reads labels, VCI and indexes and drops
/// nothing silently.
pub struct DiagnosisRun {
    full_data_scan: bool,
    stage: DiagnoseStage,
    label_uuids: Vec<LabelUuid>,
    candidates: Vec<IndexCandidateDiagnostic>,
    vci: Vec<VciCopy>,
    errors: Vec<String>,
    targets: Vec<u64>,
}

/// The model of a diagnosis.
#[verifier::ext_equal]
pub struct DiagnoseState {
    pub full_data_scan: bool,
    pub stage: DiagnoseStage,
    pub label_uuids: Seq<(u8, Seq<char>)>,
    pub candidates: Seq<CandidateRecord>,
    pub vci: Seq<VciCopyModel>,
    pub errors: Seq<Seq<char>>,
    pub targets: Seq<u64>,
}

pub open spec fn uuid_pairs(list: Seq<LabelUuid>) -> Seq<(u8, Seq<char>)> {
    list.map_values(|l: LabelUuid| (l.partition, l.uuid@))
}

impl View for DiagnosisRun {
    type V = DiagnoseState;

    closed spec fn view(&self) -> DiagnoseState {
        DiagnoseState {
            full_data_scan: self.full_data_scan,
            stage: self.stage,
            label_uuids: uuid_pairs(self.label_uuids@),
            candidates: candidate_records(self.candidates@),
            vci: vci_models(self.vci@),
            errors: views(self.errors@),
            targets: self.targets@,
        }
    }
}

/// What a diagnosis is told.
#[derive(Debug, PartialEq, Eq)]
pub enum DiagnoseReply {
    Tape(TapeReply),
    Probed(ProbeAction),
    Scanned(ScanAction),
    Read(ReadAtAction),
}

/// What a diagnosis does next.
#[derive(Debug, PartialEq, Eq)]
pub enum DiagnoseAction {
    Command(TapeCommand),
    Probe { partition: u8 },
    /// Collect all candidates of a partition.
    Scan { partition: u8 },
    /// Read the candidate at a block of the data partition.
    Read { block: u64 },
    Finished(VolumeDiagnosis),
    Failed(String),
}

/// The model of the outcome of a diagnosis.
#[verifier::ext_equal]
pub struct DiagnosisModel {
    pub label_uuid: Option<Seq<char>>,
    pub candidates: Seq<CandidateRecord>,
    pub vci: Seq<VciCopyModel>,
    pub partition_errors: Seq<Seq<char>>,
    pub consistency: VolumeConsistency,
    pub safe_for_normal_write: bool,
}

impl View for VolumeDiagnosis {
    type V = DiagnosisModel;

    open spec fn view(&self) -> DiagnosisModel {
        DiagnosisModel {
            label_uuid: opt_view(self.label_uuid),
            candidates: candidate_records(self.candidates@),
            vci: vci_models(self.vci@),
            partition_errors: views(self.partition_errors@),
            consistency: self.consistency,
            safe_for_normal_write: self.safe_for_normal_write,
        }
    }
}

pub enum DiagnoseActionModel {
    Command(CommandModel),
    Probe { partition: u8 },
    Scan { partition: u8 },
    Read { block: u64 },
    Finished(DiagnosisModel),
    Failed(Seq<char>),
}

impl View for DiagnoseAction {
    type V = DiagnoseActionModel;

    open spec fn view(&self) -> DiagnoseActionModel {
        match *self {
            DiagnoseAction::Command(command) => DiagnoseActionModel::Command(command@),
            DiagnoseAction::Probe { partition } => DiagnoseActionModel::Probe { partition },
            DiagnoseAction::Scan { partition } => DiagnoseActionModel::Scan { partition },
            DiagnoseAction::Read { block } => DiagnoseActionModel::Read { block },
            DiagnoseAction::Finished(d) => DiagnoseActionModel::Finished(d@),
            DiagnoseAction::Failed(message) => DiagnoseActionModel::Failed(message@),
        }
    }
}

/// "partition N: ".
pub open spec fn partition_prefix(partition: u8) -> Seq<char> {
    "partition "@ + decimal_spec(partition as nat) + ": "@
}

/// What the probe of a label adds.
pub open spec fn diagnosed_probe(s: DiagnoseState, partition: u8, outcome: ProbeActionModel) -> DiagnoseState {
    match outcome {
        ProbeActionModel::Found(_, label) => DiagnoseState {
            label_uuids: s.label_uuids.push((partition, label.volume_uuid)),
            ..s
        },
        ProbeActionModel::Failed(message) => DiagnoseState {
            errors: s.errors.push(
                partition_prefix(partition) + "label 读取失败（不是不存在）: "@ + message,
            ),
            ..s
        },
        _ => DiagnoseState {
            errors: s.errors.push(partition_prefix(partition) + "无有效 LTFS label"@),
            ..s
        },
    }
}

/// What the coherency information of a partition adds.
pub open spec fn diagnosed_vci(s: DiagnoseState, partition: u8, reply: TapeReply) -> DiagnoseState {
    match reply {
        TapeReply::Bytes(bytes) => match vci_parsed(bytes@) {
            Ok(vci) => DiagnoseState { vci: s.vci.push(VciCopyModel { partition, vci }), ..s },
            Err(message) => DiagnoseState {
                errors: s.errors.push(partition_prefix(partition) + "VCI 解析失败: "@ + message),
                ..s
            },
        },
        _ => DiagnoseState {
            errors: s.errors.push(
                partition_prefix(partition) + "VCI 读取失败: "@ + refusal(reply),
            ),
            ..s
        },
    }
}

/// What the scan of a partition adds.
pub open spec fn diagnosed_scan(s: DiagnoseState, partition: u8, outcome: ScanActionModel) -> DiagnoseState {
    match outcome {
        ScanActionModel::Finished(found) => DiagnoseState {
            candidates: s.candidates + found,
            ..s
        },
        ScanActionModel::Failed(message) => DiagnoseState {
            errors: s.errors.push(
                partition_prefix(partition) + "index 扫描发生设备错误: "@ + message,
            ),
            ..s
        },
        _ => s,
    }
}

/// What the read of one candidate adds.
pub open spec fn diagnosed_read(s: DiagnoseState, block: u64, outcome: ReadAtActionModel) -> DiagnoseState {
    match outcome {
        ReadAtActionModel::Finished(c) => DiagnoseState { candidates: s.candidates.push(c), ..s },
        ReadAtActionModel::Failed(message) => DiagnoseState {
            errors: s.errors.push(
                "partition 1 block "@ + decimal_spec(block as nat) + ": 定点 index 读取失败: "@
                    + message,
            ),
            ..s
        },
        _ => s,
    }
}

/// `block` in its place in an ascending list, where it is not yet.
pub open spec fn with_block(list: Seq<u64>, block: u64) -> Seq<u64>
    decreases list.len(),
{
    if list.len() == 0 {
        seq![block]
    } else if list.last() < block {
        list.push(block)
    } else if list.last() == block {
        list
    } else {
        with_block(list.drop_last(), block).push(list.last())
    }
}

/// The blocks of a list in ascending order, each once.
pub open spec fn ordered_blocks(list: Seq<u64>) -> Seq<u64>
    decreases list.len(),
{
    if list.len() == 0 {
        list
    } else {
        with_block(ordered_blocks(list.drop_last()), list.last())
    }
}

/// The blocks that VCI copies of the data partition point to.
pub open spec fn vci_targets(vci: Seq<VciCopyModel>) -> Seq<u64>
    decreases vci.len(),
{
    if vci.len() == 0 {
        Seq::empty()
    } else if vci.last().partition == 1 {
        vci_targets(vci.drop_last()).push(vci.last().vci.block)
    } else {
        vci_targets(vci.drop_last())
    }
}

/// The block of the data partition that the index of a candidate points back to.
pub open spec fn chain_target(c: CandidateRecord) -> Option<u64> {
    match c.index {
        Some(index) => match index.previous_location {
            Some(at) => if at.partition == 1 {
                Some(at.startblock)
            } else {
                None
            },
            None => None,
        },
        None => None,
    }
}

pub open spec fn chain_targets(candidates: Seq<CandidateRecord>) -> Seq<u64>
    decreases candidates.len(),
{
    if candidates.len() == 0 {
        Seq::empty()
    } else {
        match chain_target(candidates.last()) {
            Some(block) => chain_targets(candidates.drop_last()).push(block),
            None => chain_targets(candidates.drop_last()),
        }
    }
}

/// The blocks of the data partition that are worth reading.
pub open spec fn diagnosis_targets(s: DiagnoseState) -> Seq<u64> {
    ordered_blocks(vci_targets(s.vci) + chain_targets(s.candidates))
}

/// The next block to read, or the end.
pub open spec fn next_target(s: DiagnoseState) -> (DiagnoseState, DiagnoseActionModel) {
    if s.targets.len() == 0 {
        diagnosis_ends(s)
    } else {
        (
            DiagnoseState {
                stage: DiagnoseStage::Target { block: s.targets[0] },
                targets: s.targets.drop_first(),
                ..s
            },
            DiagnoseActionModel::Read { block: s.targets[0] },
        )
    }
}

/// Behind the scan of the index partition.
pub open spec fn data_partition_next(s: DiagnoseState) -> (DiagnoseState, DiagnoseActionModel) {
    if s.full_data_scan {
        (
            DiagnoseState { stage: DiagnoseStage::Scan { partition: 1 }, ..s },
            DiagnoseActionModel::Scan { partition: 1 },
        )
    } else {
        let targets = diagnosis_targets(s);
        next_target(
            DiagnoseState {
                targets,
                errors: if targets.len() == 0 {
                    s.errors.push(
                        "partition 1: 没有 VCI/index chain 可信目标，默认有界诊断未执行全分区扫描"@,
                    )
                } else {
                    s.errors
                },
                ..s
            },
        )
    }
}

/// The volume of the first label.
pub open spec fn first_uuid(list: Seq<(u8, Seq<char>)>) -> Option<Seq<char>> {
    if list.len() > 0 {
        Some(list[0].1)
    } else {
        None
    }
}

/// Two labels name different volumes.
pub open spec fn labels_diverge(list: Seq<(u8, Seq<char>)>) -> bool {
    exists|i: int| 1 <= i < list.len() && (#[trigger] list[i]).1 != list[0].1
}

/// The labels as they are reported.
pub open spec fn uuid_list_text(list: Seq<(u8, Seq<char>)>) -> Seq<char> {
    "["@ + uuid_entries_text(list) + "]"@
}

pub open spec fn uuid_entries_text(list: Seq<(u8, Seq<char>)>) -> Seq<char>
    decreases list.len(),
{
    if list.len() == 0 {
        Seq::empty()
    } else {
        let before = uuid_entries_text(list.drop_last());
        let separator = if list.len() > 1 {
            before + ", "@
        } else {
            before
        };
        separator + ("("@ + decimal_spec(list.last().0 as nat) + ", "@ + debug_text(list.last().1)
            + ")"@)
    }
}

pub open spec fn plain_candidate(c: CandidateRecord) -> CandidateModel {
    CandidateModel { partition: c.partition, block: c.block, index: c.index }
}

/// What a diagnosis ends with: the consistency of the indexes and VCI, overruled by what
/// the labels say.
pub open spec fn diagnosis_result(s: DiagnoseState) -> DiagnosisModel {
    let uuid = first_uuid(s.label_uuids);
    let diverge = labels_diverge(s.label_uuids);
    let found = consistency_spec(
        uuid,
        s.candidates.map_values(|c: CandidateRecord| plain_candidate(c)),
        s.vci,
    );
    DiagnosisModel {
        label_uuid: uuid,
        candidates: s.candidates,
        vci: s.vci,
        partition_errors: if diverge {
            s.errors.push(
                "两个 partition 的 label UUID 不一致: "@ + uuid_list_text(s.label_uuids),
            )
        } else {
            s.errors
        },
        consistency: if s.label_uuids.len() != 2 {
            if found is Healthy {
                VolumeConsistency::IndexCopyMissing
            } else {
                found
            }
        } else if diverge {
            VolumeConsistency::DivergentLabels
        } else {
            found
        },
        safe_for_normal_write: s.label_uuids.len() == 2 && !diverge && safe_spec(found),
    }
}

pub open spec fn diagnosis_ends(s: DiagnoseState) -> (DiagnoseState, DiagnoseActionModel) {
    (
        DiagnoseState {
            stage: DiagnoseStage::Ended,
            label_uuids: Seq::empty(),
            candidates: Seq::empty(),
            vci: Seq::empty(),
            errors: Seq::empty(),
            ..s
        },
        DiagnoseActionModel::Finished(diagnosis_result(s)),
    )
}

pub open spec fn diagnosis_fails(s: DiagnoseState, message: Seq<char>) -> (
    DiagnoseState,
    DiagnoseActionModel,
) {
    (DiagnoseState { stage: DiagnoseStage::Ended, ..s }, DiagnoseActionModel::Failed(message))
}

/// The next move of a diagnosis: label and VCI of each partition, then the candidates.
pub open spec fn diagnose_next(s: DiagnoseState, reply: DiagnoseReply) -> (
    DiagnoseState,
    DiagnoseActionModel,
) {
    match (s.stage, reply) {
        (DiagnoseStage::SetBlock, DiagnoseReply::Tape(r)) => match failure(r) {
            None => (
                DiagnoseState { stage: DiagnoseStage::Probe { partition: 0 }, ..s },
                DiagnoseActionModel::Probe { partition: 0 },
            ),
            Some(message) => diagnosis_fails(s, message),
        },
        (DiagnoseStage::Probe { partition }, DiagnoseReply::Probed(outcome)) => (
            DiagnoseState {
                stage: DiagnoseStage::Coherency { partition },
                ..diagnosed_probe(s, partition, outcome@)
            },
            DiagnoseActionModel::Command(
                CommandModel::ReadMam { partition, id: VOLUME_COHERENCY_INFORMATION },
            ),
        ),
        (DiagnoseStage::Coherency { partition }, DiagnoseReply::Tape(r)) => {
            let t = diagnosed_vci(s, partition, r);
            if partition == 0 {
                (
                    DiagnoseState { stage: DiagnoseStage::Probe { partition: 1 }, ..t },
                    DiagnoseActionModel::Probe { partition: 1 },
                )
            } else {
                (
                    DiagnoseState { stage: DiagnoseStage::Scan { partition: 0 }, ..t },
                    DiagnoseActionModel::Scan { partition: 0 },
                )
            }
        },
        (DiagnoseStage::Scan { partition }, DiagnoseReply::Scanned(outcome)) => {
            let t = diagnosed_scan(s, partition, outcome@);
            if partition == 0 {
                data_partition_next(t)
            } else {
                diagnosis_ends(t)
            }
        },
        (DiagnoseStage::Target { block }, DiagnoseReply::Read(outcome)) => next_target(
            diagnosed_read(s, block, outcome@),
        ),
        _ => diagnosis_fails(s, misfit()),
    }
}

fn add_block(list: &mut Vec<u64>, block: u64)
    ensures
        final(list)@ == with_block(old(list)@, block),
    decreases old(list)@.len(),
{
    let ghost before = list@;
    match list.pop() {
        None => {
            list.push(block);
            assert(list@ =~= seq![block]);
        },
        Some(last) => {
            assert(list@ =~= before.drop_last());
            if last < block {
                list.push(last);
                list.push(block);
                assert(list@ =~= before.push(block));
            } else if last == block {
                list.push(last);
                assert(list@ =~= before);
            } else {
                add_block(list, block);
                list.push(last);
            }
        },
    }
}

fn push_uuid_text(list: &Vec<LabelUuid>) -> (text: String)
    ensures
        text@ == uuid_list_text(uuid_pairs(list@)),
{
    let ghost all = uuid_pairs(list@);
    let mut text = String::new();
    let mut i: usize = 0;
    assert(all.subrange(0, 0) =~= Seq::<(u8, Seq<char>)>::empty());
    while i < list.len()
        invariant
            i <= list@.len(),
            all == uuid_pairs(list@),
            text@ == uuid_entries_text(all.subrange(0, i as int)),
        decreases list@.len() - i,
    {
        proof {
            let next = all.subrange(0, i + 1);
            assert(next.drop_last() =~= all.subrange(0, i as int));
            assert(next.last() == (list@[i as int].partition, list@[i as int].uuid@));
        }
        if i > 0 {
            text.append(", ");
        }
        let entry = cat5(
            "(",
            decimal(list[i].partition as u64).as_str(),
            ", ",
            debug_of(list[i].uuid.as_str()).as_str(),
            ")",
        );
        text.append(entry.as_str());
        i = i + 1;
    }
    assert(all.subrange(0, i as int) =~= all);
    cat3("[", text.as_str(), "]")
}

/// A diagnosis at its start, and the command that begins it.
pub open spec fn diagnose_begin(full_data_scan: bool) -> (DiagnoseState, DiagnoseActionModel) {
    (
        DiagnoseState {
            full_data_scan,
            stage: DiagnoseStage::SetBlock,
            label_uuids: Seq::empty(),
            candidates: Seq::empty(),
            vci: Seq::empty(),
            errors: Seq::empty(),
            targets: Seq::empty(),
        },
        DiagnoseActionModel::Command(CommandModel::SetVariableBlock),
    )
}

impl DiagnosisRun {
    /// Begins a diagnosis; `full_data_scan` asks for the whole data partition to be read.
    pub fn new(full_data_scan: bool) -> (result: (DiagnosisRun, TapeCommand))
        ensures
            (result.0@, DiagnoseActionModel::Command(result.1@)) == diagnose_begin(full_data_scan),
    {
        let run = DiagnosisRun {
            full_data_scan,
            stage: DiagnoseStage::SetBlock,
            label_uuids: Vec::new(),
            candidates: Vec::new(),
            vci: Vec::new(),
            errors: Vec::new(),
            targets: Vec::new(),
        };
        proof {
            assert(uuid_pairs(run.label_uuids@) =~= Seq::<(u8, Seq<char>)>::empty());
            assert(candidate_records(run.candidates@) =~= Seq::<CandidateRecord>::empty());
            assert(vci_models(run.vci@) =~= Seq::<VciCopyModel>::empty());
            assert(views(run.errors@) =~= Seq::<Seq<char>>::empty());
        }
        (run, TapeCommand::SetVariableBlock)
    }

    fn fail(&mut self, message: String) -> (action: DiagnoseAction)
        ensures
            (final(self)@, action@) == diagnosis_fails(old(self)@, message@),
    {
        self.stage = DiagnoseStage::Ended;
        DiagnoseAction::Failed(message)
    }

    fn note(&mut self, partition: u8, text: &str)
        ensures
            final(self)@ == (DiagnoseState {
                errors: old(self)@.errors.push(partition_prefix(partition) + text@),
                ..old(self)@
            }),
    {
        let message = cat4("partition ", decimal(partition as u64).as_str(), ": ", text);
        push_text(&mut self.errors, message);
    }

    fn note_fault(&mut self, partition: u8, text: &str, fault: &str)
        ensures
            final(self)@ == (DiagnoseState {
                errors: old(self)@.errors.push(partition_prefix(partition) + text@ + fault@),
                ..old(self)@
            }),
    {
        let message = cat5("partition ", decimal(partition as u64).as_str(), ": ", text, fault);
        push_text(&mut self.errors, message);
    }

    fn take_probe(&mut self, partition: u8, outcome: ProbeAction)
        ensures
            final(self)@ == diagnosed_probe(old(self)@, partition, outcome@),
    {
        match outcome {
            ProbeAction::Found(_, label) => {
                let ghost before = self.label_uuids@;
                self.label_uuids.push(LabelUuid { partition, uuid: label.volume_uuid });
                assert(uuid_pairs(self.label_uuids@) =~= uuid_pairs(before).push(
                    (partition, label.volume_uuid@),
                ));
            },
            ProbeAction::Failed(message) => {
                self.note_fault(partition, "label 读取失败（不是不存在）: ", message.as_str());
            },
            _ => {
                self.note(partition, "无有效 LTFS label");
            },
        }
    }

    fn take_vci(&mut self, partition: u8, reply: TapeReply)
        ensures
            final(self)@ == diagnosed_vci(old(self)@, partition, reply),
    {
        match reply {
            TapeReply::Bytes(bytes) => match VolumeCoherencyInformation::parse(bytes.as_slice()) {
                Ok(vci) => {
                    let ghost before = self.vci@;
                    self.vci.push((partition, vci));
                    assert(vci_models(self.vci@) =~= vci_models(before).push(
                        VciCopyModel { partition, vci: vci@ },
                    ));
                },
                Err(message) => {
                    self.note_fault(partition, "VCI 解析失败: ", message.as_str());
                },
            },
            other => {
                let message = refusal_of(other);
                self.note_fault(partition, "VCI 读取失败: ", message.as_str());
            },
        }
    }

    fn take_scan(&mut self, partition: u8, outcome: ScanAction)
        ensures
            final(self)@ == diagnosed_scan(old(self)@, partition, outcome@),
    {
        match outcome {
            ScanAction::Finished(found) => {
                let mut more = found;
                let ghost before = self.candidates@;
                self.candidates.append(&mut more);
                assert(candidate_records(self.candidates@) =~= candidate_records(before)
                    + candidate_records(found@));
            },
            ScanAction::Failed(message) => {
                self.note_fault(partition, "index 扫描发生设备错误: ", message.as_str());
            },
            _ => {},
        }
    }

    fn take_read(&mut self, block: u64, outcome: ReadAtAction)
        ensures
            final(self)@ == diagnosed_read(old(self)@, block, outcome@),
    {
        match outcome {
            ReadAtAction::Finished(c) => {
                let ghost before = self.candidates@;
                self.candidates.push(c);
                assert(candidate_records(self.candidates@) =~= candidate_records(before).push(
                    candidate_record(c),
                ));
            },
            ReadAtAction::Failed(message) => {
                let text = cat4(
                    "partition 1 block ",
                    decimal(block).as_str(),
                    ": 定点 index 读取失败: ",
                    message.as_str(),
                );
                push_text(&mut self.errors, text);
            },
            _ => {},
        }
    }

    fn collect_targets(&self) -> (targets: Vec<u64>)
        ensures
            targets@ == diagnosis_targets(self@),
    {
        let ghost vci = vci_models(self.vci@);
        let ghost candidates = candidate_records(self.candidates@);
        let mut targets: Vec<u64> = Vec::new();
        let mut i: usize = 0;
        proof {
            assert(vci.subrange(0, 0) =~= Seq::<VciCopyModel>::empty());
            assert(targets@ =~= ordered_blocks(vci_targets(vci.subrange(0, 0))));
        }
        while i < self.vci.len()
            invariant
                i <= self.vci@.len(),
                vci == vci_models(self.vci@),
                targets@ == ordered_blocks(vci_targets(vci.subrange(0, i as int))),
            decreases self.vci@.len() - i,
        {
            proof {
                let next = vci.subrange(0, i + 1);
                assert(next.drop_last() =~= vci.subrange(0, i as int));
                assert(next.last().partition == self.vci@[i as int].0);
                assert(next.last().vci.block == self.vci@[i as int].1.block);
                let before = vci_targets(vci.subrange(0, i as int));
                assert(before.push(self.vci@[i as int].1.block).drop_last() =~= before);
            }
            if self.vci[i].0 == 1 {
                add_block(&mut targets, self.vci[i].1.block);
            }
            i = i + 1;
        }
        assert(vci.subrange(0, i as int) =~= vci);
        let ghost head = vci_targets(vci);
        let mut k: usize = 0;
        proof {
            assert(candidates.subrange(0, 0) =~= Seq::<CandidateRecord>::empty());
            assert(head + chain_targets(candidates.subrange(0, 0)) =~= head);
        }
        while k < self.candidates.len()
            invariant
                k <= self.candidates@.len(),
                candidates == candidate_records(self.candidates@),
                targets@ == ordered_blocks(head + chain_targets(candidates.subrange(0, k as int))),
            decreases self.candidates@.len() - k,
        {
            proof {
                let next = candidates.subrange(0, k + 1);
                assert(next.drop_last() =~= candidates.subrange(0, k as int));
                assert(next.last() == candidate_record(self.candidates@[k as int]));
                let before = chain_targets(candidates.subrange(0, k as int));
                match chain_target(next.last()) {
                    Some(block) => {
                        assert((head + before.push(block)).drop_last() =~= head + before);
                        assert((head + before.push(block)).last() == block);
                    },
                    None => {},
                }
            }
            match &self.candidates[k].index {
                Some(index) => match index.previous_location {
                    Some(at) => {
                        if at.partition == 1 {
                            add_block(&mut targets, at.startblock);
                        }
                    },
                    None => {},
                },
                None => {},
            }
            k = k + 1;
        }
        assert(candidates.subrange(0, k as int) =~= candidates);
        targets
    }

    fn diverging(&self) -> (yes: bool)
        ensures
            yes == labels_diverge(self@.label_uuids),
    {
        let ghost all = uuid_pairs(self.label_uuids@);
        let mut i: usize = 1;
        while i < self.label_uuids.len()
            invariant
                1 <= i,
                i <= self.label_uuids@.len() || self.label_uuids@.len() == 0,
                all == uuid_pairs(self.label_uuids@),
                forall|j: int| 1 <= j < i && j < all.len() ==> (#[trigger] all[j]).1 == all[0].1,
            decreases self.label_uuids@.len() - i,
        {
            assert(all[i as int].1 == self.label_uuids@[i as int].uuid@);
            assert(all[0].1 == self.label_uuids@[0].uuid@);
            if !same(self.label_uuids[i].uuid.as_str(), self.label_uuids[0].uuid.as_str()) {
                return true;
            }
            i = i + 1;
        }
        false
    }

    fn finish(&mut self) -> (action: DiagnoseAction)
        ensures
            (final(self)@, action@) == diagnosis_ends(old(self)@),
    {
        let ghost s = self@;
        let count: usize = self.label_uuids.len();
        let diverge = self.diverging();
        let uuid = if count > 0 {
            Some(self.label_uuids[0].uuid.clone())
        } else {
            None
        };
        let (found, safe) = classify_volume_consistency(
            match &uuid {
                Some(u) => Some(u.as_str()),
                None => None,
            },
            &self.candidates,
            &self.vci,
        );
        proof {
            assert(candidate_models(self.candidates@) =~= s.candidates.map_values(
                |c: CandidateRecord| plain_candidate(c),
            ));
            if count > 0 {
                assert(s.label_uuids[0].1 == self.label_uuids@[0].uuid@);
            }
        }
        if diverge {
            let text = cat2(
                "两个 partition 的 label UUID 不一致: ",
                push_uuid_text(&self.label_uuids).as_str(),
            );
            push_text(&mut self.errors, text);
        }
        let consistency = if count != 2 {
            if found == VolumeConsistency::Healthy {
                VolumeConsistency::IndexCopyMissing
            } else {
                found
            }
        } else if diverge {
            VolumeConsistency::DivergentLabels
        } else {
            found
        };
        let mut candidates: Vec<IndexCandidateDiagnostic> = Vec::new();
        let ghost all_candidates = self.candidates@;
        candidates.append(&mut self.candidates);
        assert(candidates@ =~= all_candidates);
        let mut vci: Vec<VciCopy> = Vec::new();
        let ghost all_vci = self.vci@;
        vci.append(&mut self.vci);
        assert(vci@ =~= all_vci);
        let partition_errors = take_texts(&mut self.errors);
        self.label_uuids = Vec::new();
        self.stage = DiagnoseStage::Ended;
        proof {
            assert(uuid_pairs(self.label_uuids@) =~= Seq::<(u8, Seq<char>)>::empty());
            assert(candidate_records(self.candidates@) =~= Seq::<CandidateRecord>::empty());
            assert(vci_models(self.vci@) =~= Seq::<VciCopyModel>::empty());
        }
        DiagnoseAction::Finished(
            VolumeDiagnosis {
                label_uuid: uuid,
                candidates,
                vci,
                partition_errors,
                consistency,
                safe_for_normal_write: count == 2 && !diverge && safe,
            },
        )
    }

    fn go_to_target(&mut self) -> (action: DiagnoseAction)
        ensures
            (final(self)@, action@) == next_target(old(self)@),
    {
        if self.targets.len() == 0 {
            return self.finish();
        }
        let ghost before = self.targets@;
        let block: u64 = self.targets.remove(0);
        assert(self.targets@ =~= before.drop_first());
        self.stage = DiagnoseStage::Target { block };
        DiagnoseAction::Read { block }
    }

    fn go_to_data(&mut self) -> (action: DiagnoseAction)
        ensures
            (final(self)@, action@) == data_partition_next(old(self)@),
    {
        if self.full_data_scan {
            self.stage = DiagnoseStage::Scan { partition: 1 };
            return DiagnoseAction::Scan { partition: 1 };
        }
        self.targets = self.collect_targets();
        if self.targets.len() == 0 {
            push_text(
                &mut self.errors,
                "partition 1: 没有 VCI/index chain 可信目标，默认有界诊断未执行全分区扫描".to_owned(),
            );
        }
        self.go_to_target()
    }

    /// The next move, given what came of the last one.
    pub fn next(&mut self, reply: DiagnoseReply) -> (action: DiagnoseAction)
        ensures
            (final(self)@, action@) == diagnose_next(old(self)@, reply),
    {
        match (self.stage, reply) {
            (DiagnoseStage::SetBlock, DiagnoseReply::Tape(r)) => match failure_of(r) {
                None => {
                    self.stage = DiagnoseStage::Probe { partition: 0 };
                    DiagnoseAction::Probe { partition: 0 }
                },
                Some(message) => self.fail(message),
            },
            (DiagnoseStage::Probe { partition }, DiagnoseReply::Probed(outcome)) => {
                self.take_probe(partition, outcome);
                self.stage = DiagnoseStage::Coherency { partition };
                DiagnoseAction::Command(
                    TapeCommand::ReadMam { partition, id: VOLUME_COHERENCY_INFORMATION },
                )
            },
            (DiagnoseStage::Coherency { partition }, DiagnoseReply::Tape(r)) => {
                self.take_vci(partition, r);
                if partition == 0 {
                    self.stage = DiagnoseStage::Probe { partition: 1 };
                    DiagnoseAction::Probe { partition: 1 }
                } else {
                    self.stage = DiagnoseStage::Scan { partition: 0 };
                    DiagnoseAction::Scan { partition: 0 }
                }
            },
            (DiagnoseStage::Scan { partition }, DiagnoseReply::Scanned(outcome)) => {
                self.take_scan(partition, outcome);
                if partition == 0 {
                    self.go_to_data()
                } else {
                    self.finish()
                }
            },
            (DiagnoseStage::Target { block }, DiagnoseReply::Read(outcome)) => {
                self.take_read(block, outcome);
                self.go_to_target()
            },
            _ => self.fail("设备回应与命令不符".to_owned()),
        }
    }
}

/// A diagnosis that calls a volume safe has read a label on both partitions, of one
/// volume, and found its indexes consistent.
pub proof fn safe_diagnosis_has_both_labels(s: DiagnoseState)
    requires
        diagnosis_result(s).safe_for_normal_write,
    ensures
        s.label_uuids.len() == 2,
        s.label_uuids[0].1 == s.label_uuids[1].1,
        safe_spec(diagnosis_result(s).consistency),
{
    if s.label_uuids[1].1 != s.label_uuids[0].1 {
        assert(labels_diverge(s.label_uuids));
    }
}

} // verus!
