//! The checks before a write: where data may be appended, whether the VCI agrees, and
//! what is read back afterwards.
use vstd::prelude::*;
use vstd::string::*;
use vstd::utf8::*;

use super::flow::{failure, failure_of, refusal, refusal_of, CommandModel, TapeCommand, TapeReply};
use super::drives::reply_view;
use super::probe::xml_at;
use crate::bytes::append_bytes;
use crate::device::scsi::{parse_sense, sense_spec};
use crate::device::tape::ReadRecord;
use crate::device::{DeviceFault, Error};
use crate::hash::{digest_text, hashed_bytes, new_hasher, sha256_text, take_bytes, Sha256Hasher};
use crate::ltfs::index::{file_at, Extent, Index, IndexModel, TapePos};
use crate::ltfs::index_xml::{index_fault_text, index_from};
use crate::ltfs::label::{Label, LabelModel};
use crate::ltfs::mam::{vci_parsed, VciModel, VolumeCoherencyInformation};
use crate::ltfs::xml::xml_events;
use crate::text::{cat2, cat3, cat4, cat5, cat6, decimal, decimal_spec, opt_view, same, utf8_string};

verus! {

// ---------------------------------------------------------------------------
// Where data may be appended
// ---------------------------------------------------------------------------

/// Where a check stands.
#[derive(Debug, Clone, Copy, PartialEq, Eq, Structural)]
pub enum AppendStage {
    Locate,
    Record,
    Mark,
    Return,
}

/// A check that the data partition ends with the index that the index partition points
/// to. It reads on to the end of data: whatever stands behind that index must not be
/// overwritten.
pub struct AppendCheck {
    referenced: TapePos,
    volume_uuid: String,
    index_generation: u64,
    stage: AppendStage,
    group: Vec<u8>,
    group_is_xml: Option<bool>,
    referenced_end: Option<u64>,
    saw_tail: bool,
    newer_generation: Option<u64>,
}

/// The model of a check.
#[verifier::ext_equal]
pub struct AppendState {
    pub referenced: TapePos,
    pub volume_uuid: Seq<char>,
    pub index_generation: u64,
    pub stage: AppendStage,
    pub group: Seq<u8>,
    pub group_is_xml: Option<bool>,
    pub referenced_end: Option<u64>,
    pub saw_tail: bool,
    pub newer_generation: Option<u64>,
}

impl View for AppendCheck {
    type V = AppendState;

    closed spec fn view(&self) -> AppendState {
        AppendState {
            referenced: self.referenced,
            volume_uuid: self.volume_uuid@,
            index_generation: self.index_generation,
            stage: self.stage,
            group: self.group@,
            group_is_xml: self.group_is_xml,
            referenced_end: self.referenced_end,
            saw_tail: self.saw_tail,
            newer_generation: self.newer_generation,
        }
    }
}

/// What a check does next.
#[derive(Debug, PartialEq, Eq)]
pub enum AppendAction {
    Command(TapeCommand),
    /// Data may be appended at this block, where the tape stands now.
    Finished(u64),
    Failed(String),
}

pub enum AppendActionModel {
    Command(CommandModel),
    Finished(u64),
    Failed(Seq<char>),
}

impl View for AppendAction {
    type V = AppendActionModel;

    open spec fn view(&self) -> AppendActionModel {
        match *self {
            AppendAction::Command(command) => AppendActionModel::Command(command@),
            AppendAction::Finished(block) => AppendActionModel::Finished(block),
            AppendAction::Failed(message) => AppendActionModel::Failed(message@),
        }
    }
}

/// "pPbB".
pub open spec fn place_text(at: TapePos) -> Seq<char> {
    "p"@ + decimal_spec(at.partition as nat) + "b"@ + decimal_spec(at.startblock as nat)
}

fn place_of(at: &TapePos) -> (text: String)
    ensures
        text@ == place_text(*at),
{
    cat4("p", decimal(at.partition as u64).as_str(), "b", decimal(at.startblock).as_str())
}

/// The index that a group holds, or why it holds none.
pub open spec fn referenced_index(group: Seq<u8>) -> Result<IndexModel, Seq<char>> {
    if !valid_utf8(group) {
        Err("data 分区引用位置不是 UTF-8 index"@)
    } else {
        match index_from(xml_events(decode_utf8(group))) {
            Ok(index) => Ok(index),
            Err(fault) => Err("data 分区引用位置不是有效 index: "@ + index_fault_text(fault)),
        }
    }
}

/// What is wrong with the index that the index partition points to.
pub open spec fn referenced_fault(s: AppendState) -> Option<Seq<char>> {
    match referenced_index(s.group) {
        Err(message) => Some(message),
        Ok(index) => if index.self_location != s.referenced {
            Some(
                "data index 自身位置不匹配：引用 "@ + place_text(s.referenced) + "，index 声明 "@
                    + place_text(index.self_location),
            )
        } else if index.volume_uuid != s.volume_uuid {
            Some("data index 的 volume UUID 与 index 分区不一致"@)
        } else if index.generation > s.index_generation {
            Some(
                "data index generation "@ + decimal_spec(index.generation as nat)
                    + " 新于 index 分区 generation "@ + decimal_spec(s.index_generation as nat),
            )
        } else {
            None
        },
    }
}

/// The highest generation met behind the referenced index.
pub open spec fn newer_with(newer: Option<u64>, group: Seq<u8>) -> Option<u64> {
    match referenced_index(group) {
        Err(_) => newer,
        Ok(index) => match newer {
            Some(g) => if g >= index.generation {
                Some(g)
            } else {
                Some(index.generation)
            },
            None => Some(index.generation),
        },
    }
}

/// What is reported where something stands behind the referenced index.
pub open spec fn tail_text(newer: Option<u64>) -> Seq<char> {
    "data/index 分区不一致：index 分区引用的 data index 后仍有内容"@ + (match newer {
        Some(g) => "，检测到 generation "@ + decimal_spec(g as nat) + " data index"@,
        None => ""@,
    }) + "；拒绝写入以避免覆盖，请先恢复卷一致性"@
}

pub open spec fn append_fails(s: AppendState, message: Seq<char>) -> (
    AppendState,
    AppendActionModel,
) {
    (s, AppendActionModel::Failed(message))
}

/// The next move of a check.
pub open spec fn append_next(s: AppendState, reply: TapeReply) -> (AppendState, AppendActionModel) {
    match s.stage {
        AppendStage::Locate => match failure(reply) {
            None => (
                AppendState { stage: AppendStage::Record, ..s },
                AppendActionModel::Command(CommandModel::ReadRecord),
            ),
            Some(message) => append_fails(s, message),
        },
        AppendStage::Record => match reply {
            TapeReply::Record(ReadRecord::Data(bytes)) => {
                let is_xml = match s.group_is_xml {
                    Some(b) => b,
                    None => xml_at(bytes@, 0),
                };
                (
                    AppendState {
                        saw_tail: s.saw_tail || s.referenced_end is Some,
                        group_is_xml: Some(is_xml),
                        group: if is_xml {
                            s.group + bytes@
                        } else {
                            s.group
                        },
                        ..s
                    },
                    AppendActionModel::Command(CommandModel::ReadRecord),
                )
            },
            TapeReply::Record(ReadRecord::Filemark) => (
                AppendState { stage: AppendStage::Mark, ..s },
                AppendActionModel::Command(CommandModel::ReadPosition),
            ),
            TapeReply::Record(ReadRecord::Eod) => match s.referenced_end {
                None => append_fails(
                    s,
                    "data 分区 index "@ + place_text(s.referenced) + " 后没有 filemark"@,
                ),
                Some(append) => if s.saw_tail {
                    append_fails(s, tail_text(s.newer_generation))
                } else {
                    (
                        AppendState { stage: AppendStage::Return, ..s },
                        AppendActionModel::Command(
                            CommandModel::Locate {
                                partition: s.referenced.partition,
                                block: append,
                            },
                        ),
                    )
                },
            },
            _ => append_fails(s, refusal(reply)),
        },
        AppendStage::Mark => match reply {
            TapeReply::Position(at) => {
                let t = AppendState {
                    stage: AppendStage::Record,
                    group: Seq::empty(),
                    group_is_xml: None,
                    ..s
                };
                let go = AppendActionModel::Command(CommandModel::ReadRecord);
                if s.referenced_end is None {
                    match referenced_fault(s) {
                        Some(message) => append_fails(t, message),
                        None => (AppendState { referenced_end: Some(at.block), ..t }, go),
                    }
                } else {
                    (
                        AppendState {
                            saw_tail: true,
                            newer_generation: newer_with(s.newer_generation, s.group),
                            ..t
                        },
                        go,
                    )
                }
            },
            _ => append_fails(s, refusal(reply)),
        },
        AppendStage::Return => match (failure(reply), s.referenced_end) {
            (None, Some(append)) => (s, AppendActionModel::Finished(append)),
            (Some(message), _) => append_fails(s, message),
            (None, None) => append_fails(s, super::flow::misfit()),
        },
    }
}

fn read_referenced(group: Vec<u8>) -> (result: Result<Index, String>)
    ensures
        match result {
            Ok(index) => referenced_index(group@) == Ok::<IndexModel, Seq<char>>(index@),
            Err(message) => referenced_index(group@) == Err::<IndexModel, Seq<char>>(message@),
        },
{
    match utf8_string(group) {
        Err(_) => Err("data 分区引用位置不是 UTF-8 index".to_owned()),
        Ok(text) => match Index::parse_xml(text.as_str()) {
            Ok(index) => Ok(index),
            Err(error) => Err(
                cat2("data 分区引用位置不是有效 index: ", error.text().as_str()),
            ),
        },
    }
}

/// A check at its start, and the command that begins it.
pub open spec fn append_begin(
    referenced: TapePos,
    volume_uuid: Seq<char>,
    index_generation: u64,
) -> (AppendState, AppendActionModel) {
    (
        AppendState {
            referenced,
            volume_uuid,
            index_generation,
            stage: AppendStage::Locate,
            group: Seq::empty(),
            group_is_xml: None,
            referenced_end: None,
            saw_tail: false,
            newer_generation: None,
        },
        AppendActionModel::Command(
            CommandModel::Locate {
                partition: referenced.partition,
                block: referenced.startblock,
            },
        ),
    )
}

impl AppendCheck {
    /// Begins a check at the index that the index partition points to.
    pub fn new(referenced: TapePos, volume_uuid: &str, index_generation: u64) -> (result: (
        AppendCheck,
        TapeCommand,
    ))
        ensures
            (result.0@, AppendActionModel::Command(result.1@)) == append_begin(
                referenced,
                volume_uuid@,
                index_generation,
            ),
    {
        (
            AppendCheck {
                referenced,
                volume_uuid: volume_uuid.to_owned(),
                index_generation,
                stage: AppendStage::Locate,
                group: Vec::new(),
                group_is_xml: None,
                referenced_end: None,
                saw_tail: false,
                newer_generation: None,
            },
            TapeCommand::Locate { partition: referenced.partition, block: referenced.startblock },
        )
    }

    /// The index that the check began at.
    pub fn referenced(&self) -> (at: TapePos)
        ensures
            at == self@.referenced,
    {
        self.referenced
    }

    fn check_referenced(&self, group: Vec<u8>) -> (fault: Option<String>)
        ensures
            opt_view(fault) == referenced_fault(AppendState { group: group@, ..self@ }),
    {
        let index = match read_referenced(group) {
            Ok(index) => index,
            Err(message) => {
                return Some(message);
            },
        };
        if index.self_location != self.referenced {
            return Some(
                cat4(
                    "data index 自身位置不匹配：引用 ",
                    place_of(&self.referenced).as_str(),
                    "，index 声明 ",
                    place_of(&index.self_location).as_str(),
                ),
            );
        }
        if !same(index.volume_uuid.as_str(), self.volume_uuid.as_str()) {
            return Some("data index 的 volume UUID 与 index 分区不一致".to_owned());
        }
        if index.generation > self.index_generation {
            return Some(
                cat4(
                    "data index generation ",
                    decimal(index.generation).as_str(),
                    " 新于 index 分区 generation ",
                    decimal(self.index_generation).as_str(),
                ),
            );
        }
        None
    }

    /// The next move, given what came of the last command.
    pub fn next(&mut self, reply: TapeReply) -> (action: AppendAction)
        ensures
            (final(self)@, action@) == append_next(old(self)@, reply),
    {
        match self.stage {
            AppendStage::Locate => match failure_of(reply) {
                None => {
                    self.stage = AppendStage::Record;
                    AppendAction::Command(TapeCommand::ReadRecord)
                },
                Some(message) => AppendAction::Failed(message),
            },
            AppendStage::Record => match reply {
                TapeReply::Record(ReadRecord::Data(bytes)) => {
                    if self.referenced_end.is_some() {
                        self.saw_tail = true;
                    }
                    let is_xml = match self.group_is_xml {
                        Some(b) => b,
                        None => bytes.len() >= 5 && bytes[0] == 60 && bytes[1] == 63 && bytes[2]
                            == 120 && bytes[3] == 109 && bytes[4] == 108,
                    };
                    self.group_is_xml = Some(is_xml);
                    if is_xml {
                        append_bytes(&mut self.group, bytes.as_slice());
                    }
                    AppendAction::Command(TapeCommand::ReadRecord)
                },
                TapeReply::Record(ReadRecord::Filemark) => {
                    self.stage = AppendStage::Mark;
                    AppendAction::Command(TapeCommand::ReadPosition)
                },
                TapeReply::Record(ReadRecord::Eod) => match self.referenced_end {
                    None => AppendAction::Failed(
                        cat3(
                            "data 分区 index ",
                            place_of(&self.referenced).as_str(),
                            " 后没有 filemark",
                        ),
                    ),
                    Some(append) => {
                        if self.saw_tail {
                            let detail = match self.newer_generation {
                                Some(g) => cat3(
                                    "，检测到 generation ",
                                    decimal(g).as_str(),
                                    " data index",
                                ),
                                None => "".to_owned(),
                            };
                            AppendAction::Failed(
                                cat3(
                                    "data/index 分区不一致：index 分区引用的 data index 后仍有内容",
                                    detail.as_str(),
                                    "；拒绝写入以避免覆盖，请先恢复卷一致性",
                                ),
                            )
                        } else {
                            self.stage = AppendStage::Return;
                            AppendAction::Command(
                                TapeCommand::Locate {
                                    partition: self.referenced.partition,
                                    block: append,
                                },
                            )
                        }
                    },
                },
                other => AppendAction::Failed(refusal_of(other)),
            },
            AppendStage::Mark => match reply {
                TapeReply::Position(at) => {
                    let mut group: Vec<u8> = Vec::new();
                    group.append(&mut self.group);
                    assert(group@ =~= old(self)@.group);
                    self.group_is_xml = None;
                    self.stage = AppendStage::Record;
                    if self.referenced_end.is_none() {
                        match self.check_referenced(group) {
                            Some(message) => {
                                return AppendAction::Failed(message);
                            },
                            None => {},
                        }
                        self.referenced_end = Some(at.block);
                    } else {
                        self.saw_tail = true;
                        match read_referenced(group) {
                            Ok(index) => {
                                let highest: u64 = match self.newer_generation {
                                    Some(g) => if g >= index.generation {
                                        g
                                    } else {
                                        index.generation
                                    },
                                    None => index.generation,
                                };
                                self.newer_generation = Some(highest);
                            },
                            Err(_) => {},
                        }
                    }
                    AppendAction::Command(TapeCommand::ReadRecord)
                },
                other => AppendAction::Failed(refusal_of(other)),
            },
            AppendStage::Return => match (failure_of(reply), self.referenced_end) {
                (None, Some(append)) => AppendAction::Finished(append),
                (Some(message), _) => AppendAction::Failed(message),
                (None, None) => AppendAction::Failed("设备回应与命令不符".to_owned()),
            },
        }
    }
}

/// Data is appended only where the index that is pointed to was found valid and nothing
/// stands behind it.
pub proof fn append_needs_clean_end(s: AppendState, reply: TapeReply)
    requires
        s.stage is Record,
        append_next(s, reply).0.stage is Return,
    ensures
        !s.saw_tail,
        s.referenced_end is Some,
        append_next(s, reply).1 == AppendActionModel::Command(
            CommandModel::Locate {
                partition: s.referenced.partition,
                block: s.referenced_end->0,
            },
        ),
{
}

// ---------------------------------------------------------------------------
// Whether the VCI agrees
// ---------------------------------------------------------------------------

/// What came of reading a VCI: the bytes, or why there are none.
pub type VciReply = Result<Vec<u8>, String>;

/// The coherency information that was read, or why there is none.
pub open spec fn vci_read(reply: Result<Seq<u8>, Seq<char>>, partition: u8) -> Result<
    VciModel,
    Seq<char>,
> {
    match reply {
        Ok(bytes) => match vci_parsed(bytes) {
            Ok(vci) => Ok(vci),
            Err(message) => Err(
                "P"@ + decimal_spec(partition as nat) + " VCI 解析失败: "@ + message,
            ),
        },
        Err(message) => Err(
            "P"@ + decimal_spec(partition as nat) + " VCI 读取失败: "@ + message,
        ),
    }
}

/// What is wrong with a VCI that should belong to an index.
pub open spec fn vci_fault(vci: VciModel, partition: u8, block: u64, index: IndexModel) -> Option<
    Seq<char>,
> {
    if vci.generation != index.generation || vci.volume_uuid != index.volume_uuid || vci.block
        != block {
        Some(
            "卷 coherency 不一致：P"@ + decimal_spec(partition as nat) + " VCI 指向 "@ + vci_words(
                vci.generation,
                vci.block,
                vci.volume_uuid,
            ) + "，期望 "@ + vci_words(index.generation, block, index.volume_uuid),
        )
    } else {
        None
    }
}

/// "gen G block B uuid U".
pub open spec fn vci_words(generation: u64, block: u64, uuid: Seq<char>) -> Seq<char> {
    "gen "@ + decimal_spec(generation as nat) + " block "@ + decimal_spec(block as nat) + " uuid "@
        + uuid
}

fn vci_words_of(generation: u64, block: u64, uuid: &str) -> (text: String)
    ensures
        text@ == vci_words(generation, block, uuid@),
{
    cat6(
        "gen ",
        decimal(generation).as_str(),
        " block ",
        decimal(block).as_str(),
        " uuid ",
        uuid,
    )
}

/// The index points back to the data partition.
pub open spec fn data_location(label: LabelModel, index: IndexModel) -> Option<TapePos> {
    match index.previous_location {
        Some(at) => if at.partition == label.data_partition {
            Some(at)
        } else {
            None
        },
        None => None,
    }
}

/// What is wrong with the VCI of a volume. Where neither copy can be read the drive does
/// not support it, and nothing is wrong.
pub open spec fn write_vci_fault(
    label: LabelModel,
    index: IndexModel,
    first: Result<VciModel, Seq<char>>,
    second: Result<VciModel, Seq<char>>,
) -> Option<Seq<char>> {
    match data_location(label, index) {
        None => Some("index 缺少有效的 data previous-generation location"@),
        Some(at) => match (first, second) {
            (Err(_), Err(_)) => None,
            (Err(e), Ok(_)) => Some("卷 coherency 不一致：只有一份可用 VCI（"@ + e + "）"@),
            (Ok(_), Err(e)) => Some("卷 coherency 不一致：只有一份可用 VCI（"@ + e + "）"@),
            (Ok(a), Ok(b)) => match vci_fault(
                a,
                label.index_partition,
                index.self_location.startblock,
                index,
            ) {
                Some(message) => Some(message),
                None => vci_fault(b, label.data_partition, at.startblock, index),
            },
        },
    }
}

fn read_vci(reply: VciReply, partition: u8) -> (result: Result<VolumeCoherencyInformation, String>)
    ensures
        match result {
            Ok(vci) => vci_read(reply_view(reply), partition) == Ok::<VciModel, Seq<char>>(vci@),
            Err(message) => vci_read(reply_view(reply), partition) == Err::<VciModel, Seq<char>>(message@),
        },
{
    match reply {
        Ok(bytes) => match VolumeCoherencyInformation::parse(bytes.as_slice()) {
            Ok(vci) => Ok(vci),
            Err(message) => Err(
                cat4("P", decimal(partition as u64).as_str(), " VCI 解析失败: ", message.as_str()),
            ),
        },
        Err(message) => Err(
            cat4("P", decimal(partition as u64).as_str(), " VCI 读取失败: ", message.as_str()),
        ),
    }
}

fn check_vci(vci: &VolumeCoherencyInformation, partition: u8, block: u64, index: &Index) -> (fault:
    Option<String>)
    ensures
        opt_view(fault) == vci_fault(vci@, partition, block, index@),
{
    if vci.generation != index.generation || !same(
        vci.volume_uuid.as_str(),
        index.volume_uuid.as_str(),
    ) || vci.block != block {
        Some(
            cat6(
                "卷 coherency 不一致：P",
                decimal(partition as u64).as_str(),
                " VCI 指向 ",
                vci_words_of(vci.generation, vci.block, vci.volume_uuid.as_str()).as_str(),
                "，期望 ",
                vci_words_of(index.generation, block, index.volume_uuid.as_str()).as_str(),
            ),
        )
    } else {
        None
    }
}

/// Whether the VCI of both partitions belongs to the index of the volume, given what came
/// of reading it from the index partition and from the data partition.
pub fn validate_write_vci(label: &Label, index: &Index, first: VciReply, second: VciReply) -> (result:
    Result<(), String>)
    ensures
        match result {
            Ok(_) => write_vci_fault(
                label@,
                index@,
                vci_read(reply_view(first), label.index_partition),
                vci_read(reply_view(second), label.data_partition),
            ) is None,
            Err(message) => write_vci_fault(
                label@,
                index@,
                vci_read(reply_view(first), label.index_partition),
                vci_read(reply_view(second), label.data_partition),
            ) == Some(message@),
        },
{
    let at = match index.previous_location {
        Some(at) => if at.partition == label.data_partition {
            at
        } else {
            return Err("index 缺少有效的 data previous-generation location".to_owned());
        },
        None => {
            return Err("index 缺少有效的 data previous-generation location".to_owned());
        },
    };
    let a = read_vci(first, label.index_partition);
    let b = read_vci(second, label.data_partition);
    match (a, b) {
        (Err(_), Err(_)) => Ok(()),
        (Err(e), Ok(_)) => Err(
            cat3("卷 coherency 不一致：只有一份可用 VCI（", e.as_str(), "）"),
        ),
        (Ok(_), Err(e)) => Err(
            cat3("卷 coherency 不一致：只有一份可用 VCI（", e.as_str(), "）"),
        ),
        (Ok(a), Ok(b)) => {
            match check_vci(&a, label.index_partition, index.self_location.startblock, index) {
                Some(message) => {
                    return Err(message);
                },
                None => {},
            }
            match check_vci(&b, label.data_partition, at.startblock, index) {
                Some(message) => Err(message),
                None => Ok(()),
            }
        },
    }
}

// ---------------------------------------------------------------------------
// Errors of the drive
// ---------------------------------------------------------------------------

/// The drive refuses to write behind what it takes for the end of data.
pub open spec fn end_of_data_spec(fault: DeviceFault) -> bool {
    match fault {
        DeviceFault::Scsi { sense, .. } => match sense_spec(sense) {
            Some(s) => s.key == 0x08 || (s.asc == 0x00 && s.ascq == 0x05),
            None => false,
        },
        _ => false,
    }
}

/// Whether the drive refuses to write behind what it takes for the end of data.
pub fn is_end_of_data_error(e: &Error) -> (yes: bool)
    ensures
        yes == end_of_data_spec(e@),
{
    match e {
        Error::Scsi { sense, .. } => match parse_sense(sense.as_slice()) {
            Some(s) => s.key == 0x08 || (s.asc == 0x00 && s.ascq == 0x05),
            None => false,
        },
        _ => false,
    }
}

// ---------------------------------------------------------------------------
// Reading files
// ---------------------------------------------------------------------------

/// What is read: the extents of a file, in their order.
pub struct ExtentReader {
    extents: Vec<Extent>,
    at: usize,
    located: bool,
    remaining: u64,
    logical_block: u64,
    bytes: u64,
}

/// The model of a read: the extents, which of them is read, how much of it is left, the
/// block that the tape stands at, and how many bytes have been read.
#[verifier::ext_equal]
pub struct ExtentState {
    pub extents: Seq<Extent>,
    pub at: nat,
    pub located: bool,
    pub remaining: u64,
    pub logical_block: u64,
    pub bytes: u64,
}

impl View for ExtentReader {
    type V = ExtentState;

    closed spec fn view(&self) -> ExtentState {
        ExtentState {
            extents: self.extents@,
            at: self.at as nat,
            located: self.located,
            remaining: self.remaining,
            logical_block: self.logical_block,
            bytes: self.bytes,
        }
    }
}

/// What a read does next.
#[derive(Debug, PartialEq, Eq)]
pub enum ExtentAction {
    Command(TapeCommand),
    /// All extents have been read.
    Finished,
}

pub open spec fn extent_command(s: ExtentState) -> Option<CommandModel> {
    if s.at < s.extents.len() {
        if !s.located {
            Some(
                CommandModel::Locate {
                    partition: s.extents[s.at as int].partition,
                    block: s.extents[s.at as int].start_block,
                },
            )
        } else {
            Some(CommandModel::ReadRecord)
        }
    } else {
        None
    }
}

/// The state once the tape stands at the extent.
pub open spec fn extent_located(s: ExtentState) -> ExtentState {
    let x = s.extents[s.at as int];
    if x.byte_count == 0 {
        ExtentState { at: s.at + 1, located: false, ..s }
    } else {
        ExtentState {
            located: true,
            remaining: x.byte_count,
            logical_block: x.start_block,
            ..s
        }
    }
}

/// How many bytes of a record belong to the file.
pub open spec fn taken(s: ExtentState, len: nat) -> nat {
    if len <= s.remaining {
        len
    } else {
        s.remaining as nat
    }
}

/// The state behind a record.
pub open spec fn extent_read(s: ExtentState, len: nat) -> ExtentState {
    let n = taken(s, len);
    let t = ExtentState {
        remaining: (s.remaining - n) as u64,
        logical_block: super::probe::saturating(s.logical_block as int, 1),
        bytes: super::probe::saturating(s.bytes as int, n as int),
        ..s
    };
    if t.remaining == 0 {
        ExtentState { at: s.at + 1, located: false, ..t }
    } else {
        t
    }
}

/// A read of extents at its start.
pub open spec fn extent_start(extents: Seq<Extent>) -> ExtentState {
    ExtentState {
        extents,
        at: 0,
        located: false,
        remaining: 0,
        logical_block: 0,
        bytes: 0,
    }
}

impl ExtentReader {
    pub closed spec fn wf(&self) -> bool {
        self.at <= self.extents@.len()
    }

    /// A read of the extents of a file.
    pub fn new(extents: &Vec<Extent>) -> (reader: ExtentReader)
        ensures
            reader.wf(),
            reader@ == extent_start(extents@),
    {
        let mut copy: Vec<Extent> = Vec::new();
        let mut i: usize = 0;
        while i < extents.len()
            invariant
                i <= extents@.len(),
                copy@ == extents@.subrange(0, i as int),
            decreases extents@.len() - i,
        {
            copy.push(extents[i]);
            i = i + 1;
            assert(copy@ =~= extents@.subrange(0, i as int));
        }
        assert(copy@ =~= extents@);
        ExtentReader {
            extents: copy,
            at: 0,
            located: false,
            remaining: 0,
            logical_block: 0,
            bytes: 0,
        }
    }

    /// What is done next.
    pub fn action(&self) -> (action: ExtentAction)
        requires
            self.wf(),
        ensures
            match extent_command(self@) {
                Some(command) => action matches ExtentAction::Command(c) && c@ == command,
                None => action is Finished,
            },
    {
        if self.at < self.extents.len() {
            if !self.located {
                let x = self.extents[self.at];
                ExtentAction::Command(
                    TapeCommand::Locate { partition: x.partition, block: x.start_block },
                )
            } else {
                ExtentAction::Command(TapeCommand::ReadRecord)
            }
        } else {
            ExtentAction::Finished
        }
    }

    /// The tape stands at the extent.
    pub fn located(&mut self)
        requires
            old(self).wf(),
            old(self)@.at < old(self)@.extents.len(),
            !old(self)@.located,
        ensures
            final(self).wf(),
            final(self)@ == extent_located(old(self)@),
    {
        let x = self.extents[self.at];
        if x.byte_count == 0 {
            assert(self.at < self.extents.len());
            self.at = self.at + 1;
        } else {
            self.located = true;
            self.remaining = x.byte_count;
            self.logical_block = x.start_block;
        }
    }

    /// A record was read; returns how many of its bytes belong to the file.
    pub fn record(&mut self, len: usize) -> (n: usize)
        requires
            old(self).wf(),
            old(self)@.at < old(self)@.extents.len(),
            old(self)@.located,
        ensures
            final(self).wf(),
            n == taken(old(self)@, len as nat),
            final(self)@ == extent_read(old(self)@, len as nat),
    {
        let n: usize = if len as u64 <= self.remaining { len } else { self.remaining as usize };
        self.remaining = self.remaining - n as u64;
        self.logical_block = self.logical_block.saturating_add(1);
        self.bytes = self.bytes.saturating_add(n as u64);
        if self.remaining == 0 {
            assert(self.at < self.extents.len());
            self.at = self.at + 1;
            self.located = false;
        }
        n
    }

    pub fn is_located(&self) -> (yes: bool)
        ensures
            yes == self@.located,
    {
        self.located
    }

    pub fn is_done(&self) -> (yes: bool)
        requires
            self.wf(),
        ensures
            yes == (self@.at >= self@.extents.len()),
    {
        self.at >= self.extents.len()
    }

    pub fn bytes(&self) -> (n: u64)
        ensures
            n == self@.bytes,
    {
        self.bytes
    }

    pub fn logical_block(&self) -> (block: u64)
        ensures
            block == self@.logical_block,
    {
        self.logical_block
    }

    /// The partition that is being read.
    pub fn partition(&self) -> (partition: u8)
        requires
            self.wf(),
            self@.at < self@.extents.len(),
        ensures
            partition == self@.extents[self@.at as int].partition,
    {
        self.extents[self.at].partition
    }
}

/// What is reported while a file is read.
#[derive(Debug, PartialEq, Eq)]
pub struct ReadEvent {
    pub tape_path: String,
    pub bytes_read: u64,
    pub bytes_total: u64,
    pub partition: Option<u8>,
    pub logical_block: Option<u64>,
}

/// A read of a file of a volume.
pub struct FileRead {
    path: String,
    bytes_total: u64,
    reader: ExtentReader,

}

/// What a file read does next.
#[derive(Debug, PartialEq, Eq)]
pub enum ReadAction {
    Command(TapeCommand),
    /// The first bytes of the record belong to the file; then the event is reported.
    Output { count: usize, event: ReadEvent },
    Finished(u64),
    Failed(String),
}

pub enum ReadActionModel {
    Command(CommandModel),
    Output { count: nat, bytes_read: u64, partition: u8, logical_block: u64 },
    Finished(u64),
    Failed(Seq<char>),
}

pub open spec fn read_action_model(a: ReadAction, path: Seq<char>, total: u64) -> Option<
    ReadActionModel,
> {
    match a {
        ReadAction::Command(command) => Some(ReadActionModel::Command(command@)),
        ReadAction::Output { count, event } => match (event.partition, event.logical_block) {
            (Some(partition), Some(logical_block)) => if event.tape_path@ == path
                && event.bytes_total == total {
                Some(
                    ReadActionModel::Output {
                        count: count as nat,
                        bytes_read: event.bytes_read,
                        partition,
                        logical_block,
                    },
                )
            } else {
                None
            },
            _ => None,
        },
        ReadAction::Finished(bytes) => Some(ReadActionModel::Finished(bytes)),
        ReadAction::Failed(message) => Some(ReadActionModel::Failed(message@)),
    }
}

/// What is done next: the next command, unless the read was asked to stop before a record.
pub open spec fn read_goes_on(s: ExtentState, cancelled: bool) -> ReadActionModel {
    match extent_command(s) {
        None => ReadActionModel::Finished(s.bytes),
        Some(command) => if s.located && cancelled {
            ReadActionModel::Failed("[cancelled]用户请求在磁带 record 边界停止读取"@)
        } else {
            ReadActionModel::Command(command)
        },
    }
}

/// The state and the action behind what came of a command.
pub open spec fn read_reply(s: ExtentState, path: Seq<char>, reply: TapeReply, cancelled: bool) -> (
    ExtentState,
    ReadActionModel,
) {
    if s.at >= s.extents.len() {
        (s, ReadActionModel::Finished(s.bytes))
    } else if !s.located {
        match failure(reply) {
            None => (extent_located(s), read_goes_on(extent_located(s), cancelled)),
            Some(message) => (s, ReadActionModel::Failed(message)),
        }
    } else {
        match reply {
            TapeReply::Record(ReadRecord::Data(bytes)) => {
                let t = extent_read(s, bytes@.len());
                (
                    t,
                    ReadActionModel::Output {
                        count: taken(s, bytes@.len()),
                        bytes_read: t.bytes,
                        partition: s.extents[s.at as int].partition,
                        logical_block: t.logical_block,
                    },
                )
            },
            TapeReply::Record(_) => (
                s,
                ReadActionModel::Failed("读取 "@ + path + " 时磁带记录意外结束"@),
            ),
            _ => (s, ReadActionModel::Failed(refusal(reply))),
        }
    }
}

impl FileRead {
    pub closed spec fn wf(&self) -> bool {
        self.reader.wf()
    }

    pub closed spec fn state(&self) -> ExtentState {
        self.reader@
    }

    pub closed spec fn path_spec(&self) -> Seq<char> {
        self.path@
    }

    pub closed spec fn total(&self) -> u64 {
        self.bytes_total
    }

    /// Begins a read of a file; an error where the volume was not recognized, has no
    /// index, or does not have the file.
    pub fn new(
        recognized: bool,
        reason: &Option<String>,
        index: &Option<Index>,
        path: &str,
    ) -> (result: Result<FileRead, String>)
        ensures
            match result {
                Ok(read) => recognized && index is Some && file_at(index->0.root@, path@) is Some
                    && read.wf() && read.path_spec() == path@ && read.total() == file_at(
                    index->0.root@,
                    path@,
                )->0.length && read.state() == extent_start(
                    file_at(index->0.root@, path@)->0.extents,
                ),
                Err(message) => if !recognized {
                    message@ == (match *reason {
                        Some(text) => text@,
                        None => "不是 LTFS 卷"@,
                    })
                } else if index is None {
                    message@ == "没有可用的 index"@
                } else {
                    file_at(index->0.root@, path@) is None && message@ == "文件不存在: "@ + path@
                },
            },
    {
        if !recognized {
            return Err(
                match reason {
                    Some(text) => text.clone(),
                    None => "不是 LTFS 卷".to_owned(),
                },
            );
        }
        let index = match index {
            Some(index) => index,
            None => {
                return Err("没有可用的 index".to_owned());
            },
        };
        match index.find_file(path) {
            None => Err(cat2("文件不存在: ", path)),
            Some(file) => Ok(
                FileRead {
                    path: path.to_owned(),
                    bytes_total: file.length,
                    reader: ExtentReader::new(&file.extents),

                },
            ),
        }
    }

    /// What is done next: also the first action.
    pub fn go_on(&self, cancelled: bool) -> (action: ReadAction)
        requires
            self.wf(),
        ensures
            read_action_model(action, self.path_spec(), self.total()) == Some(
                read_goes_on(self.state(), cancelled),
            ),
    {
        match self.reader.action() {
            ExtentAction::Finished => ReadAction::Finished(self.reader.bytes()),
            ExtentAction::Command(command) => {
                if self.reader.is_located() && cancelled {
                    ReadAction::Failed("[cancelled]用户请求在磁带 record 边界停止读取".to_owned())
                } else {
                    ReadAction::Command(command)
                }
            },
        }
    }

    /// The action behind what came of a command.
    pub fn next(&mut self, reply: &TapeReply, cancelled: bool) -> (action: ReadAction)
        requires
            old(self).wf(),
        ensures
            final(self).wf(),
            final(self).path_spec() == old(self).path_spec(),
            final(self).total() == old(self).total(),
            final(self).state() == read_reply(
                old(self).state(),
                old(self).path_spec(),
                *reply,
                cancelled,
            ).0,
            read_action_model(action, old(self).path_spec(), old(self).total()) == Some(
                read_reply(old(self).state(), old(self).path_spec(), *reply, cancelled).1,
            ),
    {
        if self.reader.is_done() {
            return ReadAction::Finished(self.reader.bytes());
        }
        if !self.reader.is_located() {
            return match reply {
                TapeReply::Done => {
                    self.reader.located();
                    self.go_on(cancelled)
                },
                TapeReply::Failed(message) => ReadAction::Failed(message.clone()),
                _ => ReadAction::Failed("设备回应与命令不符".to_owned()),
            };
        }
        match reply {
            TapeReply::Record(ReadRecord::Data(bytes)) => {
                let partition: u8 = self.reader.partition();
                let count: usize = self.reader.record(bytes.len());
                ReadAction::Output {
                    count,
                    event: ReadEvent {
                        tape_path: self.path.clone(),
                        bytes_read: self.reader.bytes(),
                        bytes_total: self.bytes_total,
                        partition: Some(partition),
                        logical_block: Some(self.reader.logical_block()),
                    },
                }
            },
            TapeReply::Record(_) => ReadAction::Failed(
                cat3("读取 ", self.path.as_str(), " 时磁带记录意外结束"),
            ),
            TapeReply::Failed(message) => ReadAction::Failed(message.clone()),
            _ => ReadAction::Failed("设备回应与命令不符".to_owned()),
        }
    }
}

/// The number of bytes in a list of extents.
pub open spec fn extents_total(extents: Seq<Extent>) -> nat
    decreases extents.len(),
{
    if extents.len() == 0 {
        0
    } else {
        extents_total(extents.drop_last()) + extents.last().byte_count as nat
    }
}

/// What has been read and what is left of the current extent add up to the extents up to
/// it.
pub open spec fn extent_balanced(s: ExtentState) -> bool {
    if s.at >= s.extents.len() {
        s.bytes == extents_total(s.extents)
    } else if s.located {
        s.remaining > 0 && s.bytes + s.remaining == extents_total(
            s.extents.subrange(0, s.at as int + 1),
        )
    } else {
        s.bytes == extents_total(s.extents.subrange(0, s.at as int))
    }
}

/// A read that ends has read exactly as many bytes as the extents hold: every step keeps
/// the balance.
pub proof fn reads_all_extents(s: ExtentState, len: nat)
    requires
        s.at < s.extents.len(),
        extents_total(s.extents) <= u64::MAX,
        extent_balanced(s),
    ensures
        !s.located ==> extent_balanced(extent_located(s)),
        s.located ==> extent_balanced(extent_read(s, len)),
{
    let k = s.at as int;
    assert(s.extents.subrange(0, k + 1).drop_last() =~= s.extents.subrange(0, k));
    assert(s.extents.subrange(0, k + 1).last() == s.extents[k]);
    lemma_extents_prefix(s.extents, k + 1);
    if k + 1 == s.extents.len() {
        assert(s.extents.subrange(0, k + 1) =~= s.extents);
    }
}

proof fn lemma_extents_prefix(extents: Seq<Extent>, k: int)
    requires
        0 <= k <= extents.len(),
    ensures
        extents_total(extents.subrange(0, k)) <= extents_total(extents),
    decreases extents.len() - k,
{
    if k < extents.len() {
        assert(extents.subrange(0, k + 1).drop_last() =~= extents.subrange(0, k));
        lemma_extents_prefix(extents, k + 1);
    } else {
        assert(extents.subrange(0, k) =~= extents);
    }
}

// ---------------------------------------------------------------------------
// Reading back
// ---------------------------------------------------------------------------

/// The digest of a file that was written.
#[derive(Debug, PartialEq, Eq)]
pub struct FileHash {
    pub path: String,
    pub sha256: String,
}

/// A check that a file on tape has the digest that it was written with.
pub struct HashCheck {
    path: String,
    expected: String,
    length: u64,
    reader: ExtentReader,
    hasher: Sha256Hasher,
}

/// What a check does next.
#[derive(Debug, PartialEq, Eq)]
pub enum HashAction {
    Command(TapeCommand),
    Finished(Result<(), String>),
}

/// The model of what a check does next.
pub enum HashActionModel {
    Command(CommandModel),
    Finished(Result<(), Seq<char>>),
}

impl View for HashAction {
    type V = HashActionModel;

    open spec fn view(&self) -> HashActionModel {
        match *self {
            HashAction::Command(command) => HashActionModel::Command(command@),
            HashAction::Finished(result) => HashActionModel::Finished(
                match result {
                    Ok(_) => Ok(()),
                    Err(message) => Err(message@),
                },
            ),
        }
    }
}

/// The model of a check: the reader, and the bytes that were read back.
pub struct HashState {
    pub path: Seq<char>,
    pub expected: Seq<char>,
    pub length: u64,
    pub reader: ExtentState,
    pub bytes: Seq<u8>,
}

/// What a check that has read everything finds.
pub open spec fn hash_verdict(s: HashState) -> Result<(), Seq<char>> {
    if s.reader.bytes != s.length {
        Err(
            s.path + " 长度不匹配：index "@ + decimal_spec(s.length as nat) + " 字节，回读 "@
                + decimal_spec(s.reader.bytes as nat) + " 字节"@,
        )
    } else if sha256_text(s.bytes) != s.expected {
        Err(
            s.path + " SHA-256 不匹配：期望 "@ + s.expected + "，实际 "@ + sha256_text(s.bytes),
        )
    } else {
        Ok(())
    }
}

/// The verdict, once the digest of what was read back is known.
pub fn hash_verdict_for(path: &str, expected: &str, length: u64, bytes: u64, actual: &str) -> (result:
    Result<(), String>)
    ensures
        match result {
            Ok(_) => bytes == length && actual@ == expected@,
            Err(message) => if bytes != length {
                message@ == path@ + " 长度不匹配：index "@ + decimal_spec(length as nat)
                    + " 字节，回读 "@ + decimal_spec(bytes as nat) + " 字节"@
            } else {
                actual@ != expected@ && message@ == path@ + " SHA-256 不匹配：期望 "@ + expected@
                    + "，实际 "@ + actual@
            },
        },
{
    if bytes != length {
        return Err(
            cat6(
                path,
                " 长度不匹配：index ",
                decimal(length).as_str(),
                " 字节，回读 ",
                decimal(bytes).as_str(),
                " 字节",
            ),
        );
    }
    if !same(actual, expected) {
        return Err(cat5(path, " SHA-256 不匹配：期望 ", expected, "，实际 ", actual));
    }
    Ok(())
}

/// The next action of a check.
pub open spec fn hash_goes_on(s: HashState) -> HashActionModel {
    match extent_command(s.reader) {
        None => HashActionModel::Finished(hash_verdict(s)),
        Some(command) => HashActionModel::Command(command),
    }
}

/// The state and the action behind what came of a command.
pub open spec fn hash_reply(s: HashState, reply: TapeReply) -> (HashState, HashActionModel) {
    if s.reader.at >= s.reader.extents.len() {
        (s, HashActionModel::Finished(Err(super::flow::misfit())))
    } else if !s.reader.located {
        match failure(reply) {
            None => {
                let t = HashState { reader: extent_located(s.reader), ..s };
                (t, hash_goes_on(t))
            },
            Some(message) => (
                s,
                HashActionModel::Finished(Err("定位 "@ + s.path + " 失败: "@ + message)),
            ),
        }
    } else {
        match reply {
            TapeReply::Record(ReadRecord::Data(bytes)) => {
                let n = taken(s.reader, bytes@.len());
                let t = HashState {
                    reader: extent_read(s.reader, bytes@.len()),
                    bytes: s.bytes + bytes@.subrange(0, n as int),
                    ..s
                };
                (t, hash_goes_on(t))
            },
            TapeReply::Record(_) => (
                s,
                HashActionModel::Finished(Err("回读 "@ + s.path + " 时磁带记录意外结束"@)),
            ),
            _ => (
                s,
                HashActionModel::Finished(
                    Err("回读 "@ + s.path + " 失败: "@ + refusal(reply)),
                ),
            ),
        }
    }
}

impl HashCheck {
    pub closed spec fn wf(&self) -> bool {
        self.reader.wf()
    }

    pub closed spec fn state(&self) -> HashState {
        HashState {
            path: self.path@,
            expected: self.expected@,
            length: self.length,
            reader: self.reader@,
            bytes: hashed_bytes(self.hasher),
        }
    }

    /// Begins a check of a file of an index.
    pub fn new(index: &Index, expected: &FileHash) -> (result: Result<HashCheck, String>)
        ensures
            match result {
                Ok(check) => file_at(index.root@, expected.path@) is Some && check.wf()
                    && check.state() == (HashState {
                    path: expected.path@,
                    expected: expected.sha256@,
                    length: file_at(index.root@, expected.path@)->0.length,
                    reader: extent_start(file_at(index.root@, expected.path@)->0.extents),
                    bytes: Seq::empty(),
                }),
                Err(message) => file_at(index.root@, expected.path@) is None && message@
                    == "index 中找不到 "@ + expected.path@,
            },
    {
        match index.find_file(expected.path.as_str()) {
            None => Err(cat2("index 中找不到 ", expected.path.as_str())),
            Some(file) => Ok(
                HashCheck {
                    path: expected.path.clone(),
                    expected: expected.sha256.clone(),
                    length: file.length,
                    reader: ExtentReader::new(&file.extents),
                    hasher: new_hasher(),
                },
            ),
        }
    }

    /// The next action: also the first. A check that has read everything gives its
    /// verdict and is used up.
    pub fn go_on(self) -> (result: (HashAction, Option<HashCheck>))
        requires
            self.wf(),
        ensures
            result.0@ == hash_goes_on(self.state()),
            result.0 is Command ==> result.1 == Some(self),
            result.0 is Finished ==> result.1 is None,
    {
        match self.reader.action() {
            ExtentAction::Command(command) => (HashAction::Command(command), Some(self)),
            ExtentAction::Finished => {
                let bytes: u64 = self.reader.bytes();
                let actual = digest_text(self.hasher);
                let verdict = hash_verdict_for(
                    self.path.as_str(),
                    self.expected.as_str(),
                    self.length,
                    bytes,
                    actual.as_str(),
                );
                (HashAction::Finished(verdict), None)
            },
        }
    }

    /// The action behind what came of a command.
    pub fn next(self, reply: TapeReply) -> (result: (HashAction, Option<HashCheck>))
        requires
            self.wf(),
        ensures
            result.0@ == hash_reply(self.state(), reply).1,
            result.1 is Some ==> result.1->0.wf() && result.1->0.state() == hash_reply(
                self.state(),
                reply,
            ).0,
            result.0 is Command ==> result.1 is Some,
    {
        let mut check = self;
        if check.reader.is_done() {
            return (HashAction::Finished(Err("设备回应与命令不符".to_owned())), None);
        }
        if !check.reader.is_located() {
            return match failure_of(reply) {
                None => {
                    check.reader.located();
                    check.go_on()
                },
                Some(message) => (
                    HashAction::Finished(
                        Err(cat4("定位 ", check.path.as_str(), " 失败: ", message.as_str())),
                    ),
                    None,
                ),
            };
        }
        match reply {
            TapeReply::Record(ReadRecord::Data(bytes)) => {
                let n: usize = check.reader.record(bytes.len());
                take_bytes(
                    &mut check.hasher,
                    vstd::slice::slice_subrange(bytes.as_slice(), 0, n),
                );
                check.go_on()
            },
            TapeReply::Record(_) => (
                HashAction::Finished(
                    Err(cat3("回读 ", check.path.as_str(), " 时磁带记录意外结束")),
                ),
                None,
            ),
            other => {
                let message = refusal_of(other);
                (
                    HashAction::Finished(
                        Err(cat4("回读 ", check.path.as_str(), " 失败: ", message.as_str())),
                    ),
                    None,
                )
            },
        }
    }
}

} // verus!
