//! Reading labels and indexes from a partition, record by record.
use vstd::prelude::*;
use vstd::string::*;
use vstd::utf8::*;

use super::flow::{failure, failure_of, refusal, refusal_of, CommandModel, TapeCommand, TapeReply};
use super::volume::IndexCandidateDiagnostic;
use crate::bytes::append_bytes;
use crate::device::tape::ReadRecord;
use crate::ltfs::index::{Index, IndexModel};
use crate::ltfs::index_xml::{index_fault_text, index_from};
use crate::ltfs::label::{ansi_label_spec, label_from, AnsiLabel, Label, LabelModel};

use crate::ltfs::xml::xml_events;
use crate::text::{
    cat2, opt_view, trim_start_char, utf8_fault, utf8_string, without_leading,
};

verus! {

// ---------------------------------------------------------------------------
// Labels
// ---------------------------------------------------------------------------

/// Where the probe of a label stands: the reply that it waits for.
#[derive(Debug, Clone, Copy, PartialEq, Eq, Structural)]
pub enum ProbeStage {
    Locate,
    Ansi,
    FirstMark,
    Xml,
    SecondMark,
}

/// A probe for the label of a partition: VOL1, a file mark, the XML label, a file mark.
pub struct LabelProbe {
    stage: ProbeStage,
    ansi: Option<AnsiLabel>,
    label: Option<Label>,
}

/// The model of a probe.
#[verifier::ext_equal]
pub struct ProbeState {
    pub stage: ProbeStage,
    pub barcode: Option<Seq<char>>,
    pub label: Option<LabelModel>,
}

pub open spec fn barcode_of(ansi: Option<AnsiLabel>) -> Option<Seq<char>> {
    match ansi {
        Some(a) => Some(a.barcode@),
        None => None,
    }
}

pub open spec fn label_of(label: Option<Label>) -> Option<LabelModel> {
    match label {
        Some(l) => Some(l@),
        None => None,
    }
}

impl View for LabelProbe {
    type V = ProbeState;

    closed spec fn view(&self) -> ProbeState {
        ProbeState {
            stage: self.stage,
            barcode: barcode_of(self.ansi),
            label: label_of(self.label),
        }
    }
}

/// What a probe does next.
#[derive(Debug, PartialEq, Eq)]
pub enum ProbeAction {
    Command(TapeCommand),
    Found(AnsiLabel, Label),
    NoLabel,
    Failed(String),
}

pub enum ProbeActionModel {
    Command(CommandModel),
    Found(Seq<char>, LabelModel),
    NoLabel,
    Failed(Seq<char>),
}

impl View for ProbeAction {
    type V = ProbeActionModel;

    open spec fn view(&self) -> ProbeActionModel {
        match *self {
            ProbeAction::Command(command) => ProbeActionModel::Command(command@),
            ProbeAction::Found(ansi, label) => ProbeActionModel::Found(ansi.barcode@, label@),
            ProbeAction::NoLabel => ProbeActionModel::NoLabel,
            ProbeAction::Failed(message) => ProbeActionModel::Failed(message@),
        }
    }
}

pub open spec fn reads_next(s: ProbeState) -> (ProbeState, ProbeActionModel) {
    (s, ProbeActionModel::Command(CommandModel::ReadRecord))
}

/// The label that a record holds.
pub open spec fn label_record(bytes: Seq<u8>) -> Option<LabelModel> {
    if valid_utf8(bytes) {
        match label_from(xml_events(decode_utf8(bytes))) {
            Ok(label) => Some(label),
            Err(_) => None,
        }
    } else {
        None
    }
}

/// The next move of a probe. What is not as it should be means that the partition has no
/// label; only a device error fails the probe.
pub open spec fn probe_next(s: ProbeState, reply: TapeReply) -> (ProbeState, ProbeActionModel) {
    match s.stage {
        ProbeStage::Locate => match failure(reply) {
            None => reads_next(ProbeState { stage: ProbeStage::Ansi, ..s }),
            Some(message) => (s, ProbeActionModel::Failed(message)),
        },
        ProbeStage::Ansi => match reply {
            TapeReply::Record(ReadRecord::Data(bytes)) => match ansi_label_spec(bytes@) {
                Some(barcode) => reads_next(
                    ProbeState { stage: ProbeStage::FirstMark, barcode: Some(barcode), ..s },
                ),
                None => (s, ProbeActionModel::NoLabel),
            },
            TapeReply::Record(_) => (s, ProbeActionModel::NoLabel),
            _ => (s, ProbeActionModel::Failed(refusal(reply))),
        },
        ProbeStage::FirstMark => match reply {
            TapeReply::Record(ReadRecord::Filemark) => reads_next(
                ProbeState { stage: ProbeStage::Xml, ..s },
            ),
            TapeReply::Record(_) => (s, ProbeActionModel::NoLabel),
            _ => (s, ProbeActionModel::Failed(refusal(reply))),
        },
        ProbeStage::Xml => match reply {
            TapeReply::Record(ReadRecord::Data(bytes)) => match label_record(bytes@) {
                Some(label) => reads_next(
                    ProbeState { stage: ProbeStage::SecondMark, label: Some(label), ..s },
                ),
                None => (s, ProbeActionModel::NoLabel),
            },
            TapeReply::Record(_) => (s, ProbeActionModel::NoLabel),
            _ => (s, ProbeActionModel::Failed(refusal(reply))),
        },
        ProbeStage::SecondMark => match reply {
            TapeReply::Record(ReadRecord::Filemark) => match (s.barcode, s.label) {
                (Some(barcode), Some(label)) => (
                    ProbeState { barcode: None, label: None, ..s },
                    ProbeActionModel::Found(barcode, label),
                ),
                _ => (ProbeState { barcode: None, label: None, ..s }, ProbeActionModel::NoLabel),
            },
            TapeReply::Record(_) => (s, ProbeActionModel::NoLabel),
            _ => (s, ProbeActionModel::Failed(refusal(reply))),
        },
    }
}

fn read_label(bytes: Vec<u8>) -> (label: Option<Label>)
    ensures
        label_of(label) == label_record(bytes@),
{
    match utf8_string(bytes) {
        Ok(text) => match Label::parse_xml(text.as_str()) {
            Ok(label) => Some(label),
            Err(_) => None,
        },
        Err(_) => None,
    }
}

/// A probe at its start, and the command that begins it.
pub open spec fn probe_begin(partition: u8) -> (ProbeState, ProbeActionModel) {
    (
        ProbeState { stage: ProbeStage::Locate, barcode: None, label: None },
        ProbeActionModel::Command(CommandModel::Locate { partition, block: 0 }),
    )
}

impl LabelProbe {
    /// Begins a probe at the start of a partition.
    pub fn new(partition: u8) -> (result: (LabelProbe, TapeCommand))
        ensures
            (result.0@, ProbeActionModel::Command(result.1@)) == probe_begin(partition),
    {
        (
            LabelProbe { stage: ProbeStage::Locate, ansi: None, label: None },
            TapeCommand::Locate { partition, block: 0 },
        )
    }

    /// The next move, given what came of the last command.
    pub fn next(&mut self, reply: TapeReply) -> (action: ProbeAction)
        ensures
            (final(self)@, action@) == probe_next(old(self)@, reply),
    {
        match self.stage {
            ProbeStage::Locate => match failure_of(reply) {
                None => {
                    self.stage = ProbeStage::Ansi;
                    ProbeAction::Command(TapeCommand::ReadRecord)
                },
                Some(message) => ProbeAction::Failed(message),
            },
            ProbeStage::Ansi => match reply {
                TapeReply::Record(ReadRecord::Data(bytes)) => match AnsiLabel::parse(
                    bytes.as_slice(),
                ) {
                    Some(ansi) => {
                        self.ansi = Some(ansi);
                        self.stage = ProbeStage::FirstMark;
                        ProbeAction::Command(TapeCommand::ReadRecord)
                    },
                    None => ProbeAction::NoLabel,
                },
                TapeReply::Record(_) => ProbeAction::NoLabel,
                other => ProbeAction::Failed(refusal_of(other)),
            },
            ProbeStage::FirstMark => match reply {
                TapeReply::Record(ReadRecord::Filemark) => {
                    self.stage = ProbeStage::Xml;
                    ProbeAction::Command(TapeCommand::ReadRecord)
                },
                TapeReply::Record(_) => ProbeAction::NoLabel,
                other => ProbeAction::Failed(refusal_of(other)),
            },
            ProbeStage::Xml => match reply {
                TapeReply::Record(ReadRecord::Data(bytes)) => match read_label(bytes) {
                    Some(label) => {
                        self.label = Some(label);
                        self.stage = ProbeStage::SecondMark;
                        ProbeAction::Command(TapeCommand::ReadRecord)
                    },
                    None => ProbeAction::NoLabel,
                },
                TapeReply::Record(_) => ProbeAction::NoLabel,
                other => ProbeAction::Failed(refusal_of(other)),
            },
            ProbeStage::SecondMark => match reply {
                TapeReply::Record(ReadRecord::Filemark) => {
                    let ansi = self.ansi.take();
                    let label = self.label.take();
                    match (ansi, label) {
                        (Some(ansi), Some(label)) => ProbeAction::Found(ansi, label),
                        _ => ProbeAction::NoLabel,
                    }
                },
                TapeReply::Record(_) => ProbeAction::NoLabel,
                other => ProbeAction::Failed(refusal_of(other)),
            },
        }
    }
}

// ---------------------------------------------------------------------------
// The newest index of a partition
// ---------------------------------------------------------------------------

/// A scan for the newest index of a partition, from block 4 to the end of data.
pub struct LatestScan {
    located: bool,
    records: Vec<u8>,
    latest: Option<Index>,
    last_start: Option<u64>,
    file_start: u64,
    file_records: u64,
}

/// The model of a scan: the bytes of the group that is being read, the newest index with
/// the block that it begins at, where the group begins, and how many records it has.
#[verifier::ext_equal]
pub struct LatestState {
    pub located: bool,
    pub records: Seq<u8>,
    pub latest: Option<IndexModel>,
    pub last_start: Option<u64>,
    pub file_start: u64,
    pub file_records: u64,
}

pub open spec fn index_of(index: Option<Index>) -> Option<IndexModel> {
    match index {
        Some(i) => Some(i@),
        None => None,
    }
}

impl View for LatestScan {
    type V = LatestState;

    closed spec fn view(&self) -> LatestState {
        LatestState {
            located: self.located,
            records: self.records@,
            latest: index_of(self.latest),
            last_start: self.last_start,
            file_start: self.file_start,
            file_records: self.file_records,
        }
    }
}

#[derive(Debug, PartialEq, Eq)]
pub enum LatestAction {
    Command(TapeCommand),
    /// The newest index, and the file mark in front of it.
    Finished(Option<Index>, Option<u64>),
    Failed(String),
}

pub enum LatestActionModel {
    Command(CommandModel),
    Finished(Option<IndexModel>, Option<u64>),
    Failed(Seq<char>),
}

impl View for LatestAction {
    type V = LatestActionModel;

    open spec fn view(&self) -> LatestActionModel {
        match *self {
            LatestAction::Command(command) => LatestActionModel::Command(command@),
            LatestAction::Finished(index, block) => LatestActionModel::Finished(
                index_of(index),
                block,
            ),
            LatestAction::Failed(message) => LatestActionModel::Failed(message@),
        }
    }
}

/// `a + b`, at most what 64 bits hold.
pub open spec fn saturating(a: int, b: int) -> u64 {
    if a + b > u64::MAX {
        u64::MAX
    } else {
        (a + b) as u64
    }
}

/// The index that a group of records holds.
pub open spec fn group_index(records: Seq<u8>) -> Option<IndexModel> {
    if records.len() > 0 && valid_utf8(records) {
        match index_from(xml_events(decode_utf8(records))) {
            Ok(index) => Some(index),
            Err(_) => None,
        }
    } else {
        None
    }
}

/// The state behind the file mark that ends a group.
pub open spec fn latest_closed(s: LatestState) -> LatestState {
    let found = group_index(s.records);
    LatestState {
        latest: if found is Some {
            found
        } else {
            s.latest
        },
        last_start: if found is Some {
            Some(s.file_start)
        } else {
            s.last_start
        },
        records: Seq::empty(),
        file_start: saturating(s.file_start as int, saturating(s.file_records as int, 1) as int),
        file_records: 0,
        ..s
    }
}

/// The block in front of another.
pub open spec fn block_before(block: Option<u64>) -> Option<u64> {
    match block {
        Some(b) => if b > 0 {
            Some((b - 1) as u64)
        } else {
            None
        },
        None => None,
    }
}

/// The next move of a scan.
pub open spec fn latest_next(s: LatestState, reply: TapeReply) -> (LatestState, LatestActionModel) {
    if !s.located {
        match failure(reply) {
            None => (
                LatestState { located: true, ..s },
                LatestActionModel::Command(CommandModel::ReadRecord),
            ),
            Some(message) => (s, LatestActionModel::Failed(message)),
        }
    } else {
        match reply {
            TapeReply::Record(ReadRecord::Data(bytes)) => (
                LatestState {
                    records: s.records + bytes@,
                    file_records: saturating(s.file_records as int, 1),
                    ..s
                },
                LatestActionModel::Command(CommandModel::ReadRecord),
            ),
            TapeReply::Record(ReadRecord::Filemark) => (
                latest_closed(s),
                LatestActionModel::Command(CommandModel::ReadRecord),
            ),
            TapeReply::Record(ReadRecord::Eod) => (
                LatestState { latest: None, ..s },
                LatestActionModel::Finished(s.latest, block_before(s.last_start)),
            ),
            _ => (s, LatestActionModel::Failed(refusal(reply))),
        }
    }
}

fn read_group(records: Vec<u8>) -> (index: Option<Index>)
    ensures
        index_of(index) == group_index(records@),
{
    if records.len() == 0 {
        return None;
    }
    match utf8_string(records) {
        Ok(text) => match Index::parse_xml(text.as_str()) {
            Ok(index) => Some(index),
            Err(_) => None,
        },
        Err(_) => None,
    }
}

/// A scan at its start, and the command that begins it.
pub open spec fn latest_begin(partition: u8) -> (LatestState, LatestActionModel) {
    (
        LatestState {
            located: false,
            records: Seq::empty(),
            latest: None,
            last_start: None,
            file_start: 4,
            file_records: 0,
        },
        LatestActionModel::Command(CommandModel::Locate { partition, block: 4 }),
    )
}

impl LatestScan {
    /// Begins a scan behind the label of a partition.
    pub fn new(partition: u8) -> (result: (LatestScan, TapeCommand))
        ensures
            (result.0@, LatestActionModel::Command(result.1@)) == latest_begin(partition),
    {
        (
            LatestScan {
                located: false,
                records: Vec::new(),
                latest: None,
                last_start: None,
                file_start: 4,
                file_records: 0,
            },
            TapeCommand::Locate { partition, block: 4 },
        )
    }

    /// The next move, given what came of the last command.
    pub fn next(&mut self, reply: TapeReply) -> (action: LatestAction)
        ensures
            (final(self)@, action@) == latest_next(old(self)@, reply),
    {
        if !self.located {
            return match failure_of(reply) {
                None => {
                    self.located = true;
                    LatestAction::Command(TapeCommand::ReadRecord)
                },
                Some(message) => LatestAction::Failed(message),
            };
        }
        match reply {
            TapeReply::Record(ReadRecord::Data(bytes)) => {
                append_bytes(&mut self.records, bytes.as_slice());
                self.file_records = self.file_records.saturating_add(1);
                LatestAction::Command(TapeCommand::ReadRecord)
            },
            TapeReply::Record(ReadRecord::Filemark) => {
                let mut group: Vec<u8> = Vec::new();
                group.append(&mut self.records);
                assert(group@ =~= old(self)@.records);
                match read_group(group) {
                    Some(index) => {
                        self.last_start = Some(self.file_start);
                        self.latest = Some(index);
                    },
                    None => {},
                }
                self.file_start = self.file_start.saturating_add(
                    self.file_records.saturating_add(1),
                );
                self.file_records = 0;
                LatestAction::Command(TapeCommand::ReadRecord)
            },
            TapeReply::Record(ReadRecord::Eod) => {
                let latest = self.latest.take();
                let block: Option<u64> = match self.last_start {
                    Some(b) => if b > 0 { Some(b - 1) } else { None },
                    None => None,
                };
                LatestAction::Finished(latest, block)
            },
            other => LatestAction::Failed(refusal_of(other)),
        }
    }
}

// ---------------------------------------------------------------------------
// Index candidates
// ---------------------------------------------------------------------------

/// The bytes begin like an XML document, perhaps behind a byte order mark.
pub open spec fn begins_like_xml(bytes: Seq<u8>) -> bool {
    ||| xml_at(bytes, 0)
    ||| bytes.len() >= 3 && bytes[0] == 0xef && bytes[1] == 0xbb && bytes[2] == 0xbf && xml_at(
        bytes,
        3,
    )
}

/// "<?xml" stands at a position.
pub open spec fn xml_at(bytes: Seq<u8>, at: int) -> bool {
    bytes.len() >= at + 5 && bytes[at] == 60 && bytes[at + 1] == 63 && bytes[at + 2] == 120
        && bytes[at + 3] == 109 && bytes[at + 4] == 108
}

fn has_xml_at(bytes: &Vec<u8>, at: usize) -> (yes: bool)
    requires
        at <= 3,
    ensures
        yes == xml_at(bytes@, at as int),
{
    bytes.len() >= at + 5 && bytes[at] == 60 && bytes[at + 1] == 63 && bytes[at + 2] == 120
        && bytes[at + 3] == 109 && bytes[at + 4] == 108
}

fn looks_like_xml(bytes: &Vec<u8>) -> (yes: bool)
    ensures
        yes == begins_like_xml(bytes@),
{
    has_xml_at(bytes, 0) || (bytes.len() >= 3 && bytes[0] == 0xef && bytes[1] == 0xbb && bytes[2]
        == 0xbf && has_xml_at(bytes, 3))
}

/// A candidate in full: where it stands, how long it is, and what it was read as.
#[verifier::ext_equal]
pub struct CandidateRecord {
    pub partition: u8,
    pub block: u64,
    pub byte_len: usize,
    pub index: Option<IndexModel>,
    pub parse_error: Option<Seq<char>>,
}

pub open spec fn candidate_record(c: IndexCandidateDiagnostic) -> CandidateRecord {
    CandidateRecord {
        partition: c.physical_partition,
        block: c.actual_start_block,
        byte_len: c.byte_len,
        index: index_of(c.index),
        parse_error: opt_view(c.parse_error),
    }
}

pub open spec fn candidate_records(list: Seq<IndexCandidateDiagnostic>) -> Seq<CandidateRecord> {
    list.map_values(|c: IndexCandidateDiagnostic| candidate_record(c))
}

/// The candidate that a group of records stands for.
pub open spec fn candidate_spec(
    partition: u8,
    start_block: u64,
    byte_len: usize,
    looks_like_index: bool,
    records: Seq<u8>,
) -> CandidateRecord {
    let base = CandidateRecord {
        partition,
        block: start_block,
        byte_len,
        index: None,
        parse_error: None,
    };
    if !looks_like_index {
        CandidateRecord {
            parse_error: Some("record group 不是 XML index（可能是普通 data）"@),
            ..base
        }
    } else if !valid_utf8(records) {
        CandidateRecord {
            parse_error: Some("index 不是有效 UTF-8: "@ + utf8_fault(records)),
            ..base
        }
    } else {
        match index_from(xml_events(without_leading(decode_utf8(records), '\u{feff}'))) {
            Ok(index) => CandidateRecord { index: Some(index), ..base },
            Err(fault) => CandidateRecord { parse_error: Some(index_fault_text(fault)), ..base },
        }
    }
}

/// The candidate that a group of records stands for.
pub fn index_candidate_from_records(
    partition: u8,
    start_block: u64,
    byte_len: usize,
    looks_like_index: bool,
    records: Vec<u8>,
) -> (candidate: IndexCandidateDiagnostic)
    ensures
        candidate_record(candidate) == candidate_spec(
            partition,
            start_block,
            byte_len,
            looks_like_index,
            records@,
        ),
{
    let (index, parse_error) = if !looks_like_index {
        (None, Some("record group 不是 XML index（可能是普通 data）".to_owned()))
    } else {
        match utf8_string(records) {
            Ok(text) => match Index::parse_xml(
                trim_start_char(text.as_str(), '\u{feff}').as_str(),
            ) {
                Ok(index) => (Some(index), None),
                Err(error) => (None, Some(error.text())),
            },
            Err(message) => (None, Some(cat2("index 不是有效 UTF-8: ", message.as_str()))),
        }
    };
    IndexCandidateDiagnostic {
        physical_partition: partition,
        actual_start_block: start_block,
        byte_len,
        index,
        parse_error,
    }
}

/// A scan for all index candidates of a partition, from block 4 to the end of data.
pub struct CandidateScan {
    partition: u8,
    located: bool,
    candidates: Vec<IndexCandidateDiagnostic>,
    records: Vec<u8>,
    byte_len: usize,
    looks_like_index: Option<bool>,
    file_start: u64,
    file_records: u64,
}

/// The model of a scan. The bytes of a group are kept only where it begins like an index:
/// a data file may fill the tape.
#[verifier::ext_equal]
pub struct ScanState {
    pub partition: u8,
    pub located: bool,
    pub candidates: Seq<CandidateRecord>,
    pub records: Seq<u8>,
    pub byte_len: usize,
    pub looks_like_index: Option<bool>,
    pub file_start: u64,
    pub file_records: u64,
}

impl View for CandidateScan {
    type V = ScanState;

    closed spec fn view(&self) -> ScanState {
        ScanState {
            partition: self.partition,
            located: self.located,
            candidates: candidate_records(self.candidates@),
            records: self.records@,
            byte_len: self.byte_len,
            looks_like_index: self.looks_like_index,
            file_start: self.file_start,
            file_records: self.file_records,
        }
    }
}

#[derive(Debug, PartialEq, Eq)]
pub enum ScanAction {
    Command(TapeCommand),
    Finished(Vec<IndexCandidateDiagnostic>),
    Failed(String),
}

pub enum ScanActionModel {
    Command(CommandModel),
    Finished(Seq<CandidateRecord>),
    Failed(Seq<char>),
}

impl View for ScanAction {
    type V = ScanActionModel;

    open spec fn view(&self) -> ScanActionModel {
        match *self {
            ScanAction::Command(command) => ScanActionModel::Command(command@),
            ScanAction::Finished(list) => ScanActionModel::Finished(candidate_records(list@)),
            ScanAction::Failed(message) => ScanActionModel::Failed(message@),
        }
    }
}

pub open spec fn saturating_len(a: int, b: int) -> usize {
    if a + b > usize::MAX {
        usize::MAX
    } else {
        (a + b) as usize
    }
}

/// A data record of a group.
pub open spec fn scan_data(s: ScanState, bytes: Seq<u8>) -> ScanState {
    let like = match s.looks_like_index {
        Some(b) => b,
        None => begins_like_xml(bytes),
    };
    ScanState {
        byte_len: saturating_len(s.byte_len as int, bytes.len() as int),
        looks_like_index: Some(like),
        records: if like {
            s.records + bytes
        } else {
            s.records
        },
        file_records: saturating(s.file_records as int, 1),
        ..s
    }
}

/// The candidates with the group that is being read, where it holds data.
pub open spec fn scan_candidates(s: ScanState) -> Seq<CandidateRecord> {
    if s.byte_len > 0 {
        s.candidates.push(
            candidate_spec(
                s.partition,
                s.file_start,
                s.byte_len,
                s.looks_like_index == Some(true),
                s.records,
            ),
        )
    } else {
        s.candidates
    }
}

/// The next move of a scan.
pub open spec fn scan_next(s: ScanState, reply: TapeReply) -> (ScanState, ScanActionModel) {
    if !s.located {
        match failure(reply) {
            None => (
                ScanState { located: true, ..s },
                ScanActionModel::Command(CommandModel::ReadRecord),
            ),
            Some(message) => (s, ScanActionModel::Failed(message)),
        }
    } else {
        match reply {
            TapeReply::Record(ReadRecord::Data(bytes)) => (
                scan_data(s, bytes@),
                ScanActionModel::Command(CommandModel::ReadRecord),
            ),
            TapeReply::Record(ReadRecord::Filemark) => (
                ScanState {
                    candidates: scan_candidates(s),
                    records: Seq::empty(),
                    byte_len: 0,
                    looks_like_index: None,
                    file_start: saturating(
                        s.file_start as int,
                        saturating(s.file_records as int, 1) as int,
                    ),
                    file_records: 0,
                    ..s
                },
                ScanActionModel::Command(CommandModel::ReadRecord),
            ),
            TapeReply::Record(ReadRecord::Eod) => (
                ScanState {
                    candidates: Seq::empty(),
                    records: Seq::empty(),
                    byte_len: 0,
                    looks_like_index: None,
                    ..s
                },
                ScanActionModel::Finished(scan_candidates(s)),
            ),
            _ => (s, ScanActionModel::Failed(refusal(reply))),
        }
    }
}

/// A scan at its start, and the command that begins it.
pub open spec fn scan_begin(partition: u8) -> (ScanState, ScanActionModel) {
    (
        ScanState {
            partition,
            located: false,
            candidates: Seq::empty(),
            records: Seq::empty(),
            byte_len: 0,
            looks_like_index: None,
            file_start: 4,
            file_records: 0,
        },
        ScanActionModel::Command(CommandModel::Locate { partition, block: 4 }),
    )
}

impl CandidateScan {
    /// Begins a scan behind the label of a partition.
    pub fn new(partition: u8) -> (result: (CandidateScan, TapeCommand))
        ensures
            (result.0@, ScanActionModel::Command(result.1@)) == scan_begin(partition),
    {
        let candidates: Vec<IndexCandidateDiagnostic> = Vec::new();
        assert(candidate_records(candidates@) =~= Seq::<CandidateRecord>::empty());
        (
            CandidateScan {
                partition,
                located: false,
                candidates,
                records: Vec::new(),
                byte_len: 0,
                looks_like_index: None,
                file_start: 4,
                file_records: 0,
            },
            TapeCommand::Locate { partition, block: 4 },
        )
    }

    fn close_group(&mut self)
        ensures
            final(self)@ == (ScanState {
                candidates: scan_candidates(old(self)@),
                records: Seq::empty(),
                byte_len: 0,
                looks_like_index: None,
                ..old(self)@
            }),
    {
        let mut group: Vec<u8> = Vec::new();
        group.append(&mut self.records);
        assert(group@ =~= old(self)@.records);
        if self.byte_len > 0 {
            let like = match self.looks_like_index {
                Some(b) => b,
                None => false,
            };
            let candidate = index_candidate_from_records(
                self.partition,
                self.file_start,
                self.byte_len,
                like,
                group,
            );
            let ghost before = self.candidates@;
            self.candidates.push(candidate);
            assert(candidate_records(self.candidates@) =~= candidate_records(before).push(
                candidate_record(candidate),
            ));
        }
        self.byte_len = 0;
        self.looks_like_index = None;
    }

    /// The next move, given what came of the last command.
    pub fn next(&mut self, reply: TapeReply) -> (action: ScanAction)
        ensures
            (final(self)@, action@) == scan_next(old(self)@, reply),
    {
        if !self.located {
            return match failure_of(reply) {
                None => {
                    self.located = true;
                    ScanAction::Command(TapeCommand::ReadRecord)
                },
                Some(message) => ScanAction::Failed(message),
            };
        }
        match reply {
            TapeReply::Record(ReadRecord::Data(bytes)) => {
                self.byte_len = self.byte_len.saturating_add(bytes.len());
                let like = match self.looks_like_index {
                    Some(b) => b,
                    None => looks_like_xml(&bytes),
                };
                self.looks_like_index = Some(like);
                if like {
                    append_bytes(&mut self.records, bytes.as_slice());
                }
                self.file_records = self.file_records.saturating_add(1);
                ScanAction::Command(TapeCommand::ReadRecord)
            },
            TapeReply::Record(ReadRecord::Filemark) => {
                self.close_group();
                self.file_start = self.file_start.saturating_add(
                    self.file_records.saturating_add(1),
                );
                self.file_records = 0;
                ScanAction::Command(TapeCommand::ReadRecord)
            },
            TapeReply::Record(ReadRecord::Eod) => {
                self.close_group();
                let mut found: Vec<IndexCandidateDiagnostic> = Vec::new();
                let ghost all = self.candidates@;
                found.append(&mut self.candidates);
                assert(found@ =~= all);
                assert(candidate_records(self.candidates@) =~= Seq::<CandidateRecord>::empty());
                ScanAction::Finished(found)
            },
            other => ScanAction::Failed(refusal_of(other)),
        }
    }
}

/// The most bytes that are read of a candidate.
pub const MAX_INDEX_BYTES: usize = 536870912;

/// A read of the candidate at one block.
pub struct CandidateRead {
    partition: u8,
    start_block: u64,
    located: bool,
    records: Vec<u8>,
    byte_len: usize,
    looks_like_index: Option<bool>,
}

/// The model of a read.
#[verifier::ext_equal]
pub struct ReadAtState {
    pub partition: u8,
    pub start_block: u64,
    pub located: bool,
    pub records: Seq<u8>,
    pub byte_len: usize,
    pub looks_like_index: Option<bool>,
}

impl View for CandidateRead {
    type V = ReadAtState;

    closed spec fn view(&self) -> ReadAtState {
        ReadAtState {
            partition: self.partition,
            start_block: self.start_block,
            located: self.located,
            records: self.records@,
            byte_len: self.byte_len,
            looks_like_index: self.looks_like_index,
        }
    }
}

#[derive(Debug, PartialEq, Eq)]
pub enum ReadAtAction {
    Command(TapeCommand),
    Finished(IndexCandidateDiagnostic),
    Failed(String),
}

pub enum ReadAtActionModel {
    Command(CommandModel),
    Finished(CandidateRecord),
    Failed(Seq<char>),
}

impl View for ReadAtAction {
    type V = ReadAtActionModel;

    open spec fn view(&self) -> ReadAtActionModel {
        match *self {
            ReadAtAction::Command(command) => ReadAtActionModel::Command(command@),
            ReadAtAction::Finished(c) => ReadAtActionModel::Finished(candidate_record(c)),
            ReadAtAction::Failed(message) => ReadAtActionModel::Failed(message@),
        }
    }
}

/// The next move of a read: data that does not begin like an index ends it at once, and
/// so does an index that is too long.
pub open spec fn read_at_next(s: ReadAtState, reply: TapeReply) -> (
    ReadAtState,
    ReadAtActionModel,
) {
    if !s.located {
        match failure(reply) {
            None => (
                ReadAtState { located: true, ..s },
                ReadAtActionModel::Command(CommandModel::ReadRecord),
            ),
            Some(message) => (s, ReadAtActionModel::Failed(message)),
        }
    } else {
        match reply {
            TapeReply::Record(ReadRecord::Data(bytes)) => {
                let like = match s.looks_like_index {
                    Some(b) => b,
                    None => begins_like_xml(bytes@),
                };
                let t = ReadAtState {
                    byte_len: saturating_len(s.byte_len as int, bytes@.len() as int),
                    looks_like_index: Some(like),
                    ..s
                };
                if !like {
                    (
                        t,
                        ReadAtActionModel::Finished(
                            candidate_spec(
                                s.partition,
                                s.start_block,
                                t.byte_len,
                                false,
                                Seq::empty(),
                            ),
                        ),
                    )
                } else if s.records.len() + bytes@.len() > MAX_INDEX_BYTES {
                    (
                        t,
                        ReadAtActionModel::Finished(
                            CandidateRecord {
                                partition: s.partition,
                                block: s.start_block,
                                byte_len: t.byte_len,
                                index: None,
                                parse_error: Some(
                                    "index candidate 超过诊断上限 536870912 bytes"@,
                                ),
                            },
                        ),
                    )
                } else {
                    (
                        ReadAtState { records: s.records + bytes@, ..t },
                        ReadAtActionModel::Command(CommandModel::ReadRecord),
                    )
                }
            },
            TapeReply::Record(_) => (
                ReadAtState { records: Seq::empty(), ..s },
                ReadAtActionModel::Finished(
                    candidate_spec(
                        s.partition,
                        s.start_block,
                        s.byte_len,
                        s.looks_like_index == Some(true),
                        s.records,
                    ),
                ),
            ),
            _ => (s, ReadAtActionModel::Failed(refusal(reply))),
        }
    }
}

/// A read at its start, and the command that begins it.
pub open spec fn read_at_begin(partition: u8, start_block: u64) -> (
    ReadAtState,
    ReadAtActionModel,
) {
    (
        ReadAtState {
            partition,
            start_block,
            located: false,
            records: Seq::empty(),
            byte_len: 0,
            looks_like_index: None,
        },
        ReadAtActionModel::Command(CommandModel::Locate { partition, block: start_block }),
    )
}

impl CandidateRead {
    /// Begins a read at a block.
    pub fn new(partition: u8, start_block: u64) -> (result: (CandidateRead, TapeCommand))
        ensures
            (result.0@, ReadAtActionModel::Command(result.1@)) == read_at_begin(
                partition,
                start_block,
            ),
    {
        (
            CandidateRead {
                partition,
                start_block,
                located: false,
                records: Vec::new(),
                byte_len: 0,
                looks_like_index: None,
            },
            TapeCommand::Locate { partition, block: start_block },
        )
    }

    /// The next move, given what came of the last command.
    pub fn next(&mut self, reply: TapeReply) -> (action: ReadAtAction)
        ensures
            (final(self)@, action@) == read_at_next(old(self)@, reply),
    {
        if !self.located {
            return match failure_of(reply) {
                None => {
                    self.located = true;
                    ReadAtAction::Command(TapeCommand::ReadRecord)
                },
                Some(message) => ReadAtAction::Failed(message),
            };
        }
        match reply {
            TapeReply::Record(ReadRecord::Data(bytes)) => {
                self.byte_len = self.byte_len.saturating_add(bytes.len());
                let like = match self.looks_like_index {
                    Some(b) => b,
                    None => looks_like_xml(&bytes),
                };
                self.looks_like_index = Some(like);
                if !like {
                    let none: Vec<u8> = Vec::new();
                    return ReadAtAction::Finished(
                        index_candidate_from_records(
                            self.partition,
                            self.start_block,
                            self.byte_len,
                            false,
                            none,
                        ),
                    );
                }
                if self.records.len().saturating_add(bytes.len()) > MAX_INDEX_BYTES {
                    return ReadAtAction::Finished(
                        IndexCandidateDiagnostic {
                            physical_partition: self.partition,
                            actual_start_block: self.start_block,
                            byte_len: self.byte_len,
                            index: None,
                            parse_error: Some(
                                "index candidate 超过诊断上限 536870912 bytes".to_owned(),
                            ),
                        },
                    );
                }
                append_bytes(&mut self.records, bytes.as_slice());
                ReadAtAction::Command(TapeCommand::ReadRecord)
            },
            TapeReply::Record(_) => {
                let mut group: Vec<u8> = Vec::new();
                group.append(&mut self.records);
                assert(group@ =~= old(self)@.records);
                let like = match self.looks_like_index {
                    Some(b) => b,
                    None => false,
                };
                ReadAtAction::Finished(
                    index_candidate_from_records(
                        self.partition,
                        self.start_block,
                        self.byte_len,
                        like,
                        group,
                    ),
                )
            },
            other => ReadAtAction::Failed(refusal_of(other)),
        }
    }
}

} // verus!
