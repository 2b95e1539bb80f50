//! A session with one drive: each operation is a row of SCSI commands.
//!
//! An operation names its first command; the session is told what came of each command
//! and names the next one, until the operation has ended. It remembers the partition that
//! the drive was last seen in, so that a LOCATE knows whether to change it.
use vstd::prelude::*;
use vstd::string::*;

use super::scsi::{
    attributes_spec, parse_mam_attributes, parse_mode_sense_density, parse_read_position,
    position_spec, received, received_spec, record_models, MamAttributeRecord, MamRecordModel,
    ScsiResult, TapePosition,
};
use super::tape::{
    attribute_value_of, attribute_with_id, can_partition, changes_partition, classify_long_erase_sense,
    classify_read, configure_ltfs_partition_page, format_code_spec, long_erase_spec,
    ltfs_partition_page, mam_descriptor, needs_write_anywhere, partition_page_length, read_spec,
    set_write_anywhere, variable_block_page, write_anywhere_spec, writes_anywhere, LongEraseStatus,
    MamAttributeFormat, ReadOutcome, ReadRecord, READ_BUF_LEN,
};
use super::{DeviceFault, Error};
use crate::bytes::be_bytes;
use crate::text::{cat2, cat3, cat4, decimal, decimal_spec, hex_padded, hex_spec};

verus! {

/// A SCSI command, without what it sends.
#[derive(Debug, Clone, Copy, PartialEq, Eq, Structural)]
pub enum ScsiKind {
    ModeSense { page: u8, len: usize },
    ModeSense10 { page: u8, subpage: u8, len: usize },
    ModeSelect6,
    ModeSelect10,
    StartStop { load: bool },
    LoadUnload { action: u8 },
    PreventRemoval { prevent: bool },
    FormatMedium { layout: u8 },
    Erase { long: bool, immediate: bool },
    RequestSense { len: usize },
    Rewind,
    ReadPosition { len: usize },
    SpaceToEod,
    Locate { partition: u8, block: u64, change: bool },
    Read { len: usize },
    Write,
    WriteFilemarks { count: u32 },
    ReadAttribute { partition: u8, id: u16, len: usize },
    WriteAttribute { partition: u8 },
}

/// How many bytes a command asks for.
pub open spec fn asked(kind: ScsiKind) -> nat {
    match kind {
        ScsiKind::ModeSense { len, .. } => len as nat,
        ScsiKind::ModeSense10 { len, .. } => len as nat,
        ScsiKind::RequestSense { len } => len as nat,
        ScsiKind::ReadPosition { len } => len as nat,
        ScsiKind::Read { len } => len as nat,
        ScsiKind::ReadAttribute { len, .. } => len as nat,
        _ => 0,
    }
}

impl ScsiKind {
    /// How many bytes the command asks for.
    pub fn asks_for(self) -> (len: usize)
        ensures
            len == asked(self),
    {
        match self {
            ScsiKind::ModeSense { len, .. } => len,
            ScsiKind::ModeSense10 { len, .. } => len,
            ScsiKind::RequestSense { len } => len,
            ScsiKind::ReadPosition { len } => len,
            ScsiKind::Read { len } => len,
            ScsiKind::ReadAttribute { len, .. } => len,
            _ => 0,
        }
    }
}

/// A command with what it sends.
#[derive(Debug, PartialEq, Eq)]
pub struct ScsiCommand {
    pub kind: ScsiKind,
    pub data: Vec<u8>,
}

/// The answer to a command: what the transport reports, and the buffer that was asked for.
#[derive(Debug, PartialEq, Eq)]
pub struct ScsiAnswer {
    pub result: ScsiResult,
    pub data: Vec<u8>,
}

/// What came of a command, or why it could not be sent.
pub type ScsiReply = Result<ScsiAnswer, String>;

/// What is made of a position.
#[derive(Debug, Clone, Copy, PartialEq, Eq, Structural)]
pub enum PositionUse {
    /// Only the partition is kept.
    Partition,
    /// The block is the outcome.
    Block,
    /// The position is the outcome.
    Whole,
}

/// A step of an operation.
#[derive(Debug, Clone, Copy, PartialEq, Eq, Structural)]
pub enum TapeStep {
    SenseDensity,
    SelectVariable,
    SenseWriteAnywhere,
    UnloadToSwitch,
    SelectWriteAnywhere,
    ReloadAfterSwitch,
    Load,
    SensePartitions { erase: bool },
    SelectPartitions { erase: bool },
    Partition { erase: bool },
    ShortErase,
    LongErase,
    EraseStatus,
    Unthread,
    Thread,
    RemovePartitions,
    WriteAttribute { partition: u8, id: u16 },
    ReadAttribute { partition: u8, id: u16 },
    ReadAttributes { partition: u8 },
    AllowRemoval,
    Rewind,
    Position { use_of: PositionUse },
    Unload,
    Space,
    Locate { partition: u8, block: u64, change: bool },
    Read,
    Write,
    Filemark,
    Flush,
}

/// The command of a step.
pub open spec fn step_kind(step: TapeStep) -> ScsiKind {
    match step {
        TapeStep::SenseDensity => ScsiKind::ModeSense { page: 0, len: 12 },
        TapeStep::SelectVariable => ScsiKind::ModeSelect6,
        TapeStep::SenseWriteAnywhere => ScsiKind::ModeSense10 { page: 0x10, subpage: 1, len: 48 },
        TapeStep::UnloadToSwitch => ScsiKind::StartStop { load: false },
        TapeStep::SelectWriteAnywhere => ScsiKind::ModeSelect10,
        TapeStep::ReloadAfterSwitch => ScsiKind::StartStop { load: true },
        TapeStep::Load => ScsiKind::StartStop { load: true },
        TapeStep::SensePartitions { .. } => ScsiKind::ModeSense10 {
            page: 0x11,
            subpage: 0,
            len: 28,
        },
        TapeStep::SelectPartitions { .. } => ScsiKind::ModeSelect10,
        TapeStep::Partition { .. } => ScsiKind::FormatMedium { layout: 1 },
        TapeStep::ShortErase => ScsiKind::Erase { long: false, immediate: false },
        TapeStep::LongErase => ScsiKind::Erase { long: true, immediate: true },
        TapeStep::EraseStatus => ScsiKind::RequestSense { len: 32 },
        TapeStep::Unthread => ScsiKind::LoadUnload { action: 0x0a },
        TapeStep::Thread => ScsiKind::LoadUnload { action: 0x01 },
        TapeStep::RemovePartitions => ScsiKind::FormatMedium { layout: 0 },
        TapeStep::WriteAttribute { partition, .. } => ScsiKind::WriteAttribute { partition },
        TapeStep::ReadAttribute { partition, id } => ScsiKind::ReadAttribute {
            partition,
            id,
            len: 512,
        },
        TapeStep::ReadAttributes { partition } => ScsiKind::ReadAttribute {
            partition,
            id: 0,
            len: 8192,
        },
        TapeStep::AllowRemoval => ScsiKind::PreventRemoval { prevent: false },
        TapeStep::Rewind => ScsiKind::Rewind,
        TapeStep::Position { .. } => ScsiKind::ReadPosition { len: 32 },
        TapeStep::Unload => ScsiKind::StartStop { load: false },
        TapeStep::Space => ScsiKind::SpaceToEod,
        TapeStep::Locate { partition, block, change } => ScsiKind::Locate {
            partition,
            block,
            change,
        },
        TapeStep::Read => ScsiKind::Read { len: READ_BUF_LEN },
        TapeStep::Write => ScsiKind::Write,
        TapeStep::Filemark => ScsiKind::WriteFilemarks { count: 1 },
        TapeStep::Flush => ScsiKind::WriteFilemarks { count: 0 },
    }
}

fn kind_of(step: TapeStep) -> (kind: ScsiKind)
    ensures
        kind == step_kind(step),
{
    match step {
        TapeStep::SenseDensity => ScsiKind::ModeSense { page: 0, len: 12 },
        TapeStep::SelectVariable => ScsiKind::ModeSelect6,
        TapeStep::SenseWriteAnywhere => ScsiKind::ModeSense10 { page: 0x10, subpage: 1, len: 48 },
        TapeStep::UnloadToSwitch => ScsiKind::StartStop { load: false },
        TapeStep::SelectWriteAnywhere => ScsiKind::ModeSelect10,
        TapeStep::ReloadAfterSwitch => ScsiKind::StartStop { load: true },
        TapeStep::Load => ScsiKind::StartStop { load: true },
        TapeStep::SensePartitions { .. } => ScsiKind::ModeSense10 {
            page: 0x11,
            subpage: 0,
            len: 28,
        },
        TapeStep::SelectPartitions { .. } => ScsiKind::ModeSelect10,
        TapeStep::Partition { .. } => ScsiKind::FormatMedium { layout: 1 },
        TapeStep::ShortErase => ScsiKind::Erase { long: false, immediate: false },
        TapeStep::LongErase => ScsiKind::Erase { long: true, immediate: true },
        TapeStep::EraseStatus => ScsiKind::RequestSense { len: 32 },
        TapeStep::Unthread => ScsiKind::LoadUnload { action: 0x0a },
        TapeStep::Thread => ScsiKind::LoadUnload { action: 0x01 },
        TapeStep::RemovePartitions => ScsiKind::FormatMedium { layout: 0 },
        TapeStep::WriteAttribute { partition, .. } => ScsiKind::WriteAttribute { partition },
        TapeStep::ReadAttribute { partition, id } => ScsiKind::ReadAttribute {
            partition,
            id,
            len: 512,
        },
        TapeStep::ReadAttributes { partition } => ScsiKind::ReadAttribute {
            partition,
            id: 0,
            len: 8192,
        },
        TapeStep::AllowRemoval => ScsiKind::PreventRemoval { prevent: false },
        TapeStep::Rewind => ScsiKind::Rewind,
        TapeStep::Position { .. } => ScsiKind::ReadPosition { len: 32 },
        TapeStep::Unload => ScsiKind::StartStop { load: false },
        TapeStep::Space => ScsiKind::SpaceToEod,
        TapeStep::Locate { partition, block, change } => ScsiKind::Locate {
            partition,
            block,
            change,
        },
        TapeStep::Read => ScsiKind::Read { len: READ_BUF_LEN },
        TapeStep::Write => ScsiKind::Write,
        TapeStep::Filemark => ScsiKind::WriteFilemarks { count: 1 },
        TapeStep::Flush => ScsiKind::WriteFilemarks { count: 0 },
    }
}

/// What is reported where the command of a step cannot be sent.
pub open spec fn step_context(step: TapeStep, path: Seq<char>) -> Seq<char> {
    match step {
        TapeStep::SenseDensity => "向 "@ + path + " 发送 MODE SENSE 失败"@,
        TapeStep::SelectVariable => "向 "@ + path + " 发送 MODE SELECT 失败"@,
        TapeStep::SenseWriteAnywhere => "向 "@ + path + " 发送 MODE SENSE 0x10/0x01 失败"@,
        TapeStep::UnloadToSwitch => "为切换 write-anywhere 卸载 "@ + path + " 失败"@,
        TapeStep::SelectWriteAnywhere => "向 "@ + path
            + " 发送 write-anywhere MODE SELECT 失败"@,
        TapeStep::ReloadAfterSwitch => "切换 write-anywhere 后重新装载 "@ + path + " 失败"@,
        TapeStep::Load => "向 "@ + path + " 发送 LOAD 失败"@,
        TapeStep::SensePartitions { erase } => if erase {
            "向 "@ + path + " 读取 minimum-erase partition page 失败"@
        } else {
            "向 "@ + path + " 读取 medium partition page 失败"@
        },
        TapeStep::SelectPartitions { erase } => if erase {
            "向 "@ + path + " 设置 minimum-erase partition 失败"@
        } else {
            "向 "@ + path + " 设置 LTFS 分区参数失败"@
        },
        TapeStep::Partition { erase } => if erase {
            "向 "@ + path + " 创建 minimum-erase partition 失败"@
        } else {
            "向 "@ + path + " 发送 FORMAT MEDIUM 失败"@
        },
        TapeStep::ShortErase => "向 "@ + path + " 发送 short ERASE 失败"@,
        TapeStep::LongErase => "向 "@ + path + " 启动 long ERASE 失败"@,
        TapeStep::EraseStatus => "向 "@ + path + " 查询 long ERASE 状态失败"@,
        TapeStep::Unthread => "向 "@ + path + " 发送 UNTHREAD 失败"@,
        TapeStep::Thread => "向 "@ + path + " 发送 THREAD 失败"@,
        TapeStep::RemovePartitions => "向 "@ + path + " 移除临时分区失败"@,
        TapeStep::WriteAttribute { id, .. } => "向 "@ + path + " 写 MAM attribute 0x"@ + (hex_spec(
            id as nat,
            4,
        ) + " 失败"@),
        TapeStep::ReadAttribute { id, .. } => "从 "@ + path + " 读取 MAM attribute 0x"@ + (hex_spec(
            id as nat,
            4,
        ) + " 失败"@),
        TapeStep::ReadAttributes { partition } => "从 "@ + path + " 读取 partition "@ + (
        decimal_spec(partition as nat) + " MAM 列表失败"@),
        TapeStep::AllowRemoval => "向 "@ + path + " 发送 PREVENT ALLOW 失败"@,
        TapeStep::Rewind => "向 "@ + path + " 发送 REWIND 失败"@,
        TapeStep::Position { .. } => "向 "@ + path + " 发送 READ POSITION 失败"@,
        TapeStep::Unload => "向 "@ + path + " 发送 UNLOAD 失败"@,
        TapeStep::Space => "向 "@ + path + " 发送 SPACE(EOD) 失败"@,
        TapeStep::Locate { .. } => "向 "@ + path + " 发送 LOCATE 失败"@,
        TapeStep::Read => "向 "@ + path + " 发送 READ 失败"@,
        TapeStep::Write => "向 "@ + path + " 发送 WRITE 失败"@,
        TapeStep::Filemark => "向 "@ + path + " 发送 WRITE FILEMARK 失败"@,
        TapeStep::Flush => "向 "@ + path + " 发送 FLUSH 失败"@,
    }
}

fn context_of(step: TapeStep, path: &str) -> (text: String)
    ensures
        text@ == step_context(step, path@),
{
    match step {
        TapeStep::SenseDensity => cat3("向 ", path, " 发送 MODE SENSE 失败"),
        TapeStep::SelectVariable => cat3("向 ", path, " 发送 MODE SELECT 失败"),
        TapeStep::SenseWriteAnywhere => cat3("向 ", path, " 发送 MODE SENSE 0x10/0x01 失败"),
        TapeStep::UnloadToSwitch => cat3("为切换 write-anywhere 卸载 ", path, " 失败"),
        TapeStep::SelectWriteAnywhere => cat3(
            "向 ",
            path,
            " 发送 write-anywhere MODE SELECT 失败",
        ),
        TapeStep::ReloadAfterSwitch => cat3(
            "切换 write-anywhere 后重新装载 ",
            path,
            " 失败",
        ),
        TapeStep::Load => cat3("向 ", path, " 发送 LOAD 失败"),
        TapeStep::SensePartitions { erase } => if erase {
            cat3("向 ", path, " 读取 minimum-erase partition page 失败")
        } else {
            cat3("向 ", path, " 读取 medium partition page 失败")
        },
        TapeStep::SelectPartitions { erase } => if erase {
            cat3("向 ", path, " 设置 minimum-erase partition 失败")
        } else {
            cat3("向 ", path, " 设置 LTFS 分区参数失败")
        },
        TapeStep::Partition { erase } => if erase {
            cat3("向 ", path, " 创建 minimum-erase partition 失败")
        } else {
            cat3("向 ", path, " 发送 FORMAT MEDIUM 失败")
        },
        TapeStep::ShortErase => cat3("向 ", path, " 发送 short ERASE 失败"),
        TapeStep::LongErase => cat3("向 ", path, " 启动 long ERASE 失败"),
        TapeStep::EraseStatus => cat3("向 ", path, " 查询 long ERASE 状态失败"),
        TapeStep::Unthread => cat3("向 ", path, " 发送 UNTHREAD 失败"),
        TapeStep::Thread => cat3("向 ", path, " 发送 THREAD 失败"),
        TapeStep::RemovePartitions => cat3("向 ", path, " 移除临时分区失败"),
        TapeStep::WriteAttribute { id, .. } => cat4(
            "向 ",
            path,
            " 写 MAM attribute 0x",
            cat2(hex_padded(id as u64, 4).as_str(), " 失败").as_str(),
        ),
        TapeStep::ReadAttribute { id, .. } => cat4(
            "从 ",
            path,
            " 读取 MAM attribute 0x",
            cat2(hex_padded(id as u64, 4).as_str(), " 失败").as_str(),
        ),
        TapeStep::ReadAttributes { partition } => cat4(
            "从 ",
            path,
            " 读取 partition ",
            cat2(decimal(partition as u64).as_str(), " MAM 列表失败").as_str(),
        ),
        TapeStep::AllowRemoval => cat3("向 ", path, " 发送 PREVENT ALLOW 失败"),
        TapeStep::Rewind => cat3("向 ", path, " 发送 REWIND 失败"),
        TapeStep::Position { .. } => cat3("向 ", path, " 发送 READ POSITION 失败"),
        TapeStep::Unload => cat3("向 ", path, " 发送 UNLOAD 失败"),
        TapeStep::Space => cat3("向 ", path, " 发送 SPACE(EOD) 失败"),
        TapeStep::Locate { .. } => cat3("向 ", path, " 发送 LOCATE 失败"),
        TapeStep::Read => cat3("向 ", path, " 发送 READ 失败"),
        TapeStep::Write => cat3("向 ", path, " 发送 WRITE 失败"),
        TapeStep::Filemark => cat3("向 ", path, " 发送 WRITE FILEMARK 失败"),
        TapeStep::Flush => cat3("向 ", path, " 发送 FLUSH 失败"),
    }
}

/// What a step is called where the drive refuses it.
pub open spec fn step_label(step: TapeStep) -> Seq<char> {
    match step {
        TapeStep::SenseDensity => "MODE SENSE"@,
        TapeStep::SelectVariable => "MODE SELECT"@,
        TapeStep::SenseWriteAnywhere => "MODE SENSE 0x10/0x01"@,
        TapeStep::UnloadToSwitch => "UNLOAD for write-anywhere"@,
        TapeStep::SelectWriteAnywhere => "MODE SELECT write-anywhere"@,
        TapeStep::ReloadAfterSwitch => "LOAD after write-anywhere"@,
        TapeStep::Load => "LOAD"@,
        TapeStep::SensePartitions { erase } => if erase {
            "MODE SENSE minimum-erase partition"@
        } else {
            "MODE SENSE medium partition"@
        },
        TapeStep::SelectPartitions { erase } => if erase {
            "MODE SELECT minimum-erase partition"@
        } else {
            "MODE SELECT medium partition"@
        },
        TapeStep::Partition { erase } => if erase {
            "FORMAT MEDIUM minimum-erase partition"@
        } else {
            "FORMAT MEDIUM partition"@
        },
        TapeStep::ShortErase => "ERASE short"@,
        TapeStep::LongErase => "ERASE long IMMED"@,
        TapeStep::EraseStatus => "REQUEST SENSE during long ERASE"@,
        TapeStep::Unthread => "UNTHREAD"@,
        TapeStep::Thread => "THREAD"@,
        TapeStep::RemovePartitions => "FORMAT MEDIUM remove partitions"@,
        TapeStep::WriteAttribute { id, .. } => "WRITE ATTRIBUTE 0x"@ + hex_spec(id as nat, 4),
        TapeStep::ReadAttribute { id, .. } => "READ ATTRIBUTE 0x"@ + hex_spec(id as nat, 4),
        TapeStep::ReadAttributes { partition } => "READ ATTRIBUTE partition "@ + decimal_spec(
            partition as nat,
        ),
        TapeStep::AllowRemoval => "PREVENT ALLOW MEDIUM REMOVAL"@,
        TapeStep::Rewind => "REWIND"@,
        TapeStep::Position { .. } => "READ POSITION"@,
        TapeStep::Unload => "UNLOAD"@,
        TapeStep::Space => "SPACE(EOD)"@,
        TapeStep::Locate { .. } => "LOCATE"@,
        TapeStep::Read => "READ"@,
        TapeStep::Write => "WRITE"@,
        TapeStep::Filemark => "WRITE FILEMARK"@,
        TapeStep::Flush => "WRITE FILEMARK(0) / FLUSH"@,
    }
}

fn label_of(step: TapeStep) -> (text: String)
    ensures
        text@ == step_label(step),
{
    match step {
        TapeStep::SenseDensity => "MODE SENSE".to_owned(),
        TapeStep::SelectVariable => "MODE SELECT".to_owned(),
        TapeStep::SenseWriteAnywhere => "MODE SENSE 0x10/0x01".to_owned(),
        TapeStep::UnloadToSwitch => "UNLOAD for write-anywhere".to_owned(),
        TapeStep::SelectWriteAnywhere => "MODE SELECT write-anywhere".to_owned(),
        TapeStep::ReloadAfterSwitch => "LOAD after write-anywhere".to_owned(),
        TapeStep::Load => "LOAD".to_owned(),
        TapeStep::SensePartitions { erase } => if erase {
            "MODE SENSE minimum-erase partition".to_owned()
        } else {
            "MODE SENSE medium partition".to_owned()
        },
        TapeStep::SelectPartitions { erase } => if erase {
            "MODE SELECT minimum-erase partition".to_owned()
        } else {
            "MODE SELECT medium partition".to_owned()
        },
        TapeStep::Partition { erase } => if erase {
            "FORMAT MEDIUM minimum-erase partition".to_owned()
        } else {
            "FORMAT MEDIUM partition".to_owned()
        },
        TapeStep::ShortErase => "ERASE short".to_owned(),
        TapeStep::LongErase => "ERASE long IMMED".to_owned(),
        TapeStep::EraseStatus => "REQUEST SENSE during long ERASE".to_owned(),
        TapeStep::Unthread => "UNTHREAD".to_owned(),
        TapeStep::Thread => "THREAD".to_owned(),
        TapeStep::RemovePartitions => "FORMAT MEDIUM remove partitions".to_owned(),
        TapeStep::WriteAttribute { id, .. } => cat2(
            "WRITE ATTRIBUTE 0x",
            hex_padded(id as u64, 4).as_str(),
        ),
        TapeStep::ReadAttribute { id, .. } => cat2(
            "READ ATTRIBUTE 0x",
            hex_padded(id as u64, 4).as_str(),
        ),
        TapeStep::ReadAttributes { partition } => cat2(
            "READ ATTRIBUTE partition ",
            decimal(partition as u64).as_str(),
        ),
        TapeStep::AllowRemoval => "PREVENT ALLOW MEDIUM REMOVAL".to_owned(),
        TapeStep::Rewind => "REWIND".to_owned(),
        TapeStep::Position { .. } => "READ POSITION".to_owned(),
        TapeStep::Unload => "UNLOAD".to_owned(),
        TapeStep::Space => "SPACE(EOD)".to_owned(),
        TapeStep::Locate { .. } => "LOCATE".to_owned(),
        TapeStep::Read => "READ".to_owned(),
        TapeStep::Write => "WRITE".to_owned(),
        TapeStep::Filemark => "WRITE FILEMARK".to_owned(),
        TapeStep::Flush => "WRITE FILEMARK(0) / FLUSH".to_owned(),
    }
}

/// The step sends what the session holds ready.
pub open spec fn sends_data(step: TapeStep) -> bool {
    step is SelectVariable || step is SelectWriteAnywhere || step is SelectPartitions
        || step is WriteAttribute || step is Write
}

fn does_send_data(step: TapeStep) -> (yes: bool)
    ensures
        yes == sends_data(step),
{
    match step {
        TapeStep::SelectVariable => true,
        TapeStep::SelectWriteAnywhere => true,
        TapeStep::SelectPartitions { .. } => true,
        TapeStep::WriteAttribute { .. } => true,
        TapeStep::Write => true,
        _ => false,
    }
}

/// After the step the drive may stand in another partition than before.
pub open spec fn loses_partition(step: TapeStep) -> bool {
    step is UnloadToSwitch || step is Partition || step is ShortErase || step is Thread
        || step is RemovePartitions || step is Unload
}

fn does_lose_partition(step: TapeStep) -> (yes: bool)
    ensures
        yes == loses_partition(step),
{
    match step {
        TapeStep::UnloadToSwitch => true,
        TapeStep::Partition { .. } => true,
        TapeStep::ShortErase => true,
        TapeStep::Thread => true,
        TapeStep::RemovePartitions => true,
        TapeStep::Unload => true,
        _ => false,
    }
}

/// What an operation brings.
#[derive(Debug, PartialEq, Eq)]
pub enum TapeValue {
    Done,
    Position(TapePosition),
    Block(u64),
    Record(ReadRecord),
    Bytes(Vec<u8>),
    Attributes(Vec<MamAttributeRecord>),
    Erase(LongEraseStatus),
}

/// The model of what an operation brings.
pub enum TapeValueModel {
    Done,
    Position(TapePosition),
    Block(u64),
    Data(Seq<u8>),
    Filemark,
    Eod,
    Bytes(Seq<u8>),
    Attributes(Seq<MamRecordModel>),
    Erase(LongEraseStatus),
}

impl View for TapeValue {
    type V = TapeValueModel;

    open spec fn view(&self) -> TapeValueModel {
        match *self {
            TapeValue::Done => TapeValueModel::Done,
            TapeValue::Position(p) => TapeValueModel::Position(p),
            TapeValue::Block(b) => TapeValueModel::Block(b),
            TapeValue::Record(ReadRecord::Data(bytes)) => TapeValueModel::Data(bytes@),
            TapeValue::Record(ReadRecord::Filemark) => TapeValueModel::Filemark,
            TapeValue::Record(ReadRecord::Eod) => TapeValueModel::Eod,
            TapeValue::Bytes(bytes) => TapeValueModel::Bytes(bytes@),
            TapeValue::Attributes(list) => TapeValueModel::Attributes(record_models(list@)),
            TapeValue::Erase(status) => TapeValueModel::Erase(status),
        }
    }
}

/// What a session does next.
#[derive(Debug, PartialEq, Eq)]
pub enum TapeAction {
    /// A command is sent.
    Command(ScsiCommand),
    Finished(TapeValue),
    Failed(Error),
}

/// The model of what a session does next.
pub enum TapeActionModel {
    Command(ScsiKind, Seq<u8>),
    Finished(TapeValueModel),
    Failed(DeviceFault),
}

impl View for TapeAction {
    type V = TapeActionModel;

    open spec fn view(&self) -> TapeActionModel {
        match *self {
            TapeAction::Command(c) => TapeActionModel::Command(c.kind, c.data@),
            TapeAction::Finished(value) => TapeActionModel::Finished(value@),
            TapeAction::Failed(error) => TapeActionModel::Failed(error@),
        }
    }
}

/// A session with a drive.
#[derive(Debug)]
pub struct TapeSession {
    path: String,
    /// The partition that the drive was last seen in.
    partition: Option<u32>,
    steps: Vec<TapeStep>,
    data: Vec<u8>,
}

/// The model of a session.
#[verifier::ext_equal]
pub struct SessionState {
    pub path: Seq<char>,
    pub partition: Option<u32>,
    /// The step that waits for its reply, and those that follow.
    pub steps: Seq<TapeStep>,
    /// What a later step sends.
    pub data: Seq<u8>,
}

impl View for TapeSession {
    type V = SessionState;

    closed spec fn view(&self) -> SessionState {
        SessionState {
            path: self.path@,
            partition: self.partition,
            steps: self.steps@,
            data: self.data@,
        }
    }
}

/// The command of the first step goes out.
pub open spec fn sent(s: SessionState) -> (SessionState, TapeActionModel) {
    let step = s.steps[0];
    if sends_data(step) {
        (
            SessionState { data: Seq::empty(), ..s },
            TapeActionModel::Command(step_kind(step), s.data),
        )
    } else {
        (s, TapeActionModel::Command(step_kind(step), Seq::empty()))
    }
}

/// An operation begins.
pub open spec fn begun(s: SessionState, steps: Seq<TapeStep>, data: Seq<u8>) -> (
    SessionState,
    TapeActionModel,
) {
    sent(SessionState { steps, data, ..s })
}

/// The operation is over.
pub open spec fn ended(s: SessionState) -> SessionState {
    SessionState { steps: Seq::empty(), data: Seq::empty(), ..s }
}

/// The first step is done: the next one follows, or the operation is done.
pub open spec fn gone_on(s: SessionState) -> (SessionState, TapeActionModel) {
    if s.steps.len() <= 1 {
        (ended(s), TapeActionModel::Finished(TapeValueModel::Done))
    } else {
        sent(SessionState { steps: s.steps.drop_first(), ..s })
    }
}

/// The operation has failed.
pub open spec fn failed(s: SessionState, fault: DeviceFault) -> (SessionState, TapeActionModel) {
    (ended(s), TapeActionModel::Failed(fault))
}

/// The operation has brought something.
pub open spec fn brought(s: SessionState, value: TapeValueModel) -> (
    SessionState,
    TapeActionModel,
) {
    (ended(s), TapeActionModel::Finished(value))
}

/// The drive has refused a step.
pub open spec fn refused(path: Seq<char>, label: Seq<char>, r: ScsiResult) -> DeviceFault {
    DeviceFault::Scsi {
        device: path + " ("@ + label + ")"@,
        status: r.status,
        host_status: r.host_status,
        driver_status: r.driver_status,
        sense: r.sense@,
    }
}

/// The parameter list that selects variable blocks, with the density of a mode page.
pub open spec fn variable_page(page: Seq<u8>) -> Seq<u8> {
    let density = if page.len() >= 12 && page[3] >= 8 {
        page[4]
    } else {
        0
    };
    seq![0u8, 0u8, 0x10u8, 8u8, density, 0u8, 0u8, 0u8, 0u8, 0u8, 0u8, 0u8]
}

/// The attributes in the part of a buffer that came.
pub open spec fn attributes_that_came(data: Seq<u8>, resid: i32) -> Seq<MamRecordModel> {
    let n = received_spec(data.len(), resid);
    if n < 4 {
        Seq::empty()
    } else {
        attributes_spec(data.subrange(4, n as int))
    }
}

/// What a READ brings.
pub open spec fn read_replied(s: SessionState, answer: ScsiAnswer) -> (
    SessionState,
    TapeActionModel,
) {
    match read_spec(answer.result.status, answer.result.resid, answer.result.sense@) {
        ReadOutcome::Data(n) => brought(
            s,
            TapeValueModel::Data(answer.data@.subrange(0, n as int)),
        ),
        ReadOutcome::Filemark => brought(s, TapeValueModel::Filemark),
        ReadOutcome::Eod => brought(s, TapeValueModel::Eod),
        ReadOutcome::TooLong => failed(
            s,
            refused(s.path, "READ（记录超过缓冲区）"@, answer.result),
        ),
        ReadOutcome::Failed => failed(s, refused(s.path, "READ"@, answer.result)),
    }
}

/// What follows a position.
pub open spec fn position_replied(s: SessionState, use_of: PositionUse, data: Seq<u8>) -> (
    SessionState,
    TapeActionModel,
) {
    match position_spec(data) {
        None => failed(
            s,
            DeviceFault::Io {
                context: s.path + " READ POSITION 响应过短"@,
                source: "响应不足 24 字节"@,
            },
        ),
        Some(p) => {
            let known = SessionState { partition: Some(p.partition), ..s };
            match use_of {
                PositionUse::Partition => gone_on(known),
                PositionUse::Block => brought(known, TapeValueModel::Block(p.block)),
                PositionUse::Whole => brought(known, TapeValueModel::Position(p)),
            }
        },
    }
}

/// What follows a command that the drive has carried out.
pub open spec fn carried_out(s: SessionState, answer: ScsiAnswer) -> (SessionState, TapeActionModel) {
    let step = s.steps[0];
    let data = answer.data@;
    match step {
        TapeStep::SenseDensity => sent(
            SessionState {
                steps: seq![TapeStep::SelectVariable],
                data: variable_page(data),
                ..s
            },
        ),
        TapeStep::SenseWriteAnywhere => if writes_anywhere(data) {
            brought(s, TapeValueModel::Done)
        } else {
            sent(
                SessionState {
                    steps: seq![
                        TapeStep::UnloadToSwitch,
                        TapeStep::SelectWriteAnywhere,
                        TapeStep::ReloadAfterSwitch,
                        TapeStep::SenseDensity,
                    ],
                    data: write_anywhere_spec(data),
                    ..s
                },
            )
        },
        TapeStep::SensePartitions { .. } => if can_partition(data) {
            gone_on(SessionState { data: ltfs_partition_page(data), ..s })
        } else {
            failed(
                s,
                DeviceFault::Protocol("驱动器不支持创建 LTFS 所需的额外分区"@),
            )
        },
        TapeStep::EraseStatus => match long_erase_spec(data) {
            Ok(status) => brought(s, TapeValueModel::Erase(status)),
            Err(fault) => failed(s, fault),
        },
        TapeStep::ReadAttribute { id, .. } => match attribute_with_id(
            attributes_that_came(data, answer.result.resid),
            id,
        ) {
            Some(a) => brought(s, TapeValueModel::Bytes(a.value)),
            None => failed(
                s,
                DeviceFault::Protocol(
                    "MAM attribute 0x"@ + hex_spec(id as nat, 4) + " 不存在"@,
                ),
            ),
        },
        TapeStep::ReadAttributes { .. } => brought(
            s,
            TapeValueModel::Attributes(attributes_that_came(data, answer.result.resid)),
        ),
        TapeStep::Position { use_of } => position_replied(s, use_of, data),
        _ => if loses_partition(step) {
            gone_on(SessionState { partition: None, ..s })
        } else {
            gone_on(s)
        },
    }
}

/// What follows a reply.
pub open spec fn replied(s: SessionState, reply: ScsiReply) -> (SessionState, TapeActionModel) {
    match reply {
        Err(source) => failed(
            s,
            DeviceFault::Io { context: step_context(s.steps[0], s.path), source: source@ },
        ),
        Ok(answer) => if s.steps[0] is Read {
            read_replied(s, answer)
        } else if answer.result.status != 0 {
            failed(s, refused(s.path, step_label(s.steps[0]), answer.result))
        } else {
            carried_out(s, answer)
        },
    }
}

/// A reply that can come: the buffer is the one that was asked for.
pub open spec fn fits(s: SessionState, reply: ScsiReply) -> bool {
    s.steps.len() > 0 && (reply is Ok ==> reply->Ok_0.data@.len() == asked(step_kind(s.steps[0])))
}

impl TapeSession {
    /// A session with the drive behind `path`, in which nothing is known yet.
    pub fn open(path: &str) -> (session: TapeSession)
        ensures
            session@ == (SessionState {
                path: path@,
                partition: None,
                steps: Seq::empty(),
                data: Seq::empty(),
            }),
    {
        let session = TapeSession {
            path: path.to_owned(),
            partition: None,
            steps: Vec::new(),
            data: Vec::new(),
        };
        assert(session@.steps =~= Seq::<TapeStep>::empty());
        assert(session@.data =~= Seq::<u8>::empty());
        session
    }

    /// The path of the drive.
    pub fn path(&self) -> (path: &str)
        ensures
            path@ == self@.path,
    {
        self.path.as_str()
    }

    fn send(&mut self) -> (action: TapeAction)
        requires
            old(self)@.steps.len() > 0,
        ensures
            (final(self)@, action@) == sent(old(self)@),
    {
        let step = self.steps[0];
        let mut data: Vec<u8> = Vec::new();
        assert(data@ =~= Seq::<u8>::empty());
        if does_send_data(step) {
            core::mem::swap(&mut data, &mut self.data);
        }
        TapeAction::Command(ScsiCommand { kind: kind_of(step), data })
    }

    fn begin(&mut self, steps: Vec<TapeStep>, data: Vec<u8>) -> (action: TapeAction)
        requires
            steps@.len() > 0,
        ensures
            (final(self)@, action@) == begun(old(self)@, steps@, data@),
    {
        self.steps = steps;
        self.data = data;
        self.send()
    }

    fn end(&mut self)
        ensures
            final(self)@ == ended(old(self)@),
    {
        self.steps = Vec::new();
        self.data = Vec::new();
        assert(self@ =~= ended(old(self)@));
    }

    fn go_on(&mut self) -> (action: TapeAction)
        ensures
            (final(self)@, action@) == gone_on(old(self)@),
    {
        if self.steps.len() <= 1 {
            self.end();
            return TapeAction::Finished(TapeValue::Done);
        }
        let ghost before = self@;
        let _ = self.steps.remove(0);
        assert(self@.steps =~= before.steps.drop_first());
        self.send()
    }

    fn bring(&mut self, value: TapeValue) -> (action: TapeAction)
        ensures
            (final(self)@, action@) == brought(old(self)@, value@),
    {
        self.end();
        TapeAction::Finished(value)
    }

    fn fail(&mut self, error: Error) -> (action: TapeAction)
        ensures
            (final(self)@, action@) == failed(old(self)@, error@),
    {
        self.end();
        TapeAction::Failed(error)
    }

    fn scsi_error(&self, label: &str, result: &ScsiResult) -> (error: Error)
        ensures
            error@ == refused(self@.path, label@, *result),
    {
        Error::Scsi {
            device: cat4(self.path.as_str(), " (", label, ")"),
            status: result.status,
            host_status: result.host_status,
            driver_status: result.driver_status,
            sense: vstd::slice::slice_to_vec(result.sense.as_slice()),
        }
    }

    /// Switches to records of variable length, and keeps the density.
    pub fn set_variable_block(&mut self) -> (action: TapeAction)
        ensures
            (final(self)@, action@) == begun(
                old(self)@,
                seq![TapeStep::SenseDensity],
                Seq::empty(),
            ),
    {
        self.begin(vec![TapeStep::SenseDensity], Vec::new())
    }

    /// Switches append-only mode off where it is on. The cartridge is unloaded for that,
    /// and loaded again.
    pub fn ensure_write_anywhere(&mut self) -> (action: TapeAction)
        ensures
            (final(self)@, action@) == begun(
                old(self)@,
                seq![TapeStep::SenseWriteAnywhere],
                Seq::empty(),
            ),
    {
        self.begin(vec![TapeStep::SenseWriteAnywhere], Vec::new())
    }

    /// Lays out two partitions: the first as small as possible, the second with the rest.
    pub fn format_ltfs_partitions(&mut self) -> (action: TapeAction)
        ensures
            (final(self)@, action@) == begun(
                old(self)@,
                seq![TapeStep::Load, TapeStep::SensePartitions { erase: false }, TapeStep::SelectPartitions { erase: false }, TapeStep::Partition { erase: false }],
                Seq::empty(),
            ),
    {
        self.begin(vec![TapeStep::Load, TapeStep::SensePartitions { erase: false }, TapeStep::SelectPartitions { erase: false }, TapeStep::Partition { erase: false }], Vec::new())
    }

    /// Makes what is on the cartridge inaccessible, without writing over it.
    pub fn short_erase(&mut self) -> (action: TapeAction)
        ensures
            (final(self)@, action@) == begun(
                old(self)@,
                seq![TapeStep::Load, TapeStep::Rewind, TapeStep::Position { use_of: PositionUse::Partition }, TapeStep::ShortErase],
                Seq::empty(),
            ),
    {
        self.begin(vec![TapeStep::Load, TapeStep::Rewind, TapeStep::Position { use_of: PositionUse::Partition }, TapeStep::ShortErase], Vec::new())
    }

    /// Starts to write over the partition; the drive answers at once.
    pub fn start_long_erase(&mut self) -> (action: TapeAction)
        ensures
            (final(self)@, action@) == begun(
                old(self)@,
                seq![TapeStep::Rewind, TapeStep::Position { use_of: PositionUse::Partition }, TapeStep::LongErase],
                Seq::empty(),
            ),
    {
        self.begin(vec![TapeStep::Rewind, TapeStep::Position { use_of: PositionUse::Partition }, TapeStep::LongErase], Vec::new())
    }

    /// Asks how far a long erase is.
    pub fn long_erase_status(&mut self) -> (action: TapeAction)
        ensures
            (final(self)@, action@) == begun(
                old(self)@,
                seq![TapeStep::EraseStatus],
                Seq::empty(),
            ),
    {
        self.begin(vec![TapeStep::EraseStatus], Vec::new())
    }

    /// Lays out a smallest first partition, so that the second can be erased.
    pub fn create_minimum_erase_partition(&mut self) -> (action: TapeAction)
        ensures
            (final(self)@, action@) == begun(
                old(self)@,
                seq![TapeStep::Load, TapeStep::SensePartitions { erase: true }, TapeStep::SelectPartitions { erase: true }, TapeStep::Partition { erase: true }],
                Seq::empty(),
            ),
    {
        self.begin(vec![TapeStep::Load, TapeStep::SensePartitions { erase: true }, TapeStep::SelectPartitions { erase: true }, TapeStep::Partition { erase: true }], Vec::new())
    }

    /// Unthreads the tape and threads it again, so that the drive sees a new layout.
    pub fn rethread(&mut self) -> (action: TapeAction)
        ensures
            (final(self)@, action@) == begun(
                old(self)@,
                seq![TapeStep::Unthread, TapeStep::Thread],
                Seq::empty(),
            ),
    {
        self.begin(vec![TapeStep::Unthread, TapeStep::Thread], Vec::new())
    }

    /// Makes one partition of the cartridge.
    pub fn remove_partitions(&mut self) -> (action: TapeAction)
        ensures
            (final(self)@, action@) == begun(
                old(self)@,
                seq![TapeStep::RemovePartitions],
                Seq::empty(),
            ),
    {
        self.begin(vec![TapeStep::RemovePartitions], Vec::new())
    }

    /// Writes an attribute of the cartridge; an error where the value is too long.
    pub fn write_mam_attribute(
        &mut self,
        partition: u8,
        id: u16,
        format: MamAttributeFormat,
        value: &[u8],
    ) -> (action: TapeAction)
        ensures
            (final(self)@, action@) == (if value@.len() > 0xffff {
                failed(old(self)@, DeviceFault::Protocol("MAM attribute value 过长"@))
            } else {
                begun(
                    old(self)@,
                    seq![TapeStep::WriteAttribute { partition, id }],
                    be_bytes(id as nat, 2) + seq![format_code_spec(format)] + be_bytes(
                        value@.len(),
                        2,
                    ) + value@,
                )
            }),
    {
        match mam_descriptor(id, format, value) {
            Ok(data) => self.begin(vec![TapeStep::WriteAttribute { partition, id }], data),
            Err(error) => self.fail(error),
        }
    }

    /// Reads the value of an attribute of the cartridge.
    pub fn read_mam_attribute(&mut self, partition: u8, id: u16) -> (action: TapeAction)
        ensures
            (final(self)@, action@) == begun(
                old(self)@,
                seq![TapeStep::ReadAttribute { partition, id }],
                Seq::empty(),
            ),
    {
        self.begin(vec![TapeStep::ReadAttribute { partition, id }], Vec::new())
    }

    /// Reads all attributes of a partition.
    pub fn read_mam_attributes(&mut self, partition: u8) -> (action: TapeAction)
        ensures
            (final(self)@, action@) == begun(
                old(self)@,
                seq![TapeStep::ReadAttributes { partition }],
                Seq::empty(),
            ),
    {
        self.begin(vec![TapeStep::ReadAttributes { partition }], Vec::new())
    }

    /// Loads the cartridge.
    pub fn load(&mut self) -> (action: TapeAction)
        ensures
            (final(self)@, action@) == begun(
                old(self)@,
                seq![TapeStep::Load],
                Seq::empty(),
            ),
    {
        self.begin(vec![TapeStep::Load], Vec::new())
    }

    /// Ejects the cartridge.
    pub fn unload(&mut self) -> (action: TapeAction)
        ensures
            (final(self)@, action@) == begun(
                old(self)@,
                seq![TapeStep::AllowRemoval, TapeStep::Rewind, TapeStep::Position { use_of: PositionUse::Partition }, TapeStep::Unload],
                Seq::empty(),
            ),
    {
        self.begin(vec![TapeStep::AllowRemoval, TapeStep::Rewind, TapeStep::Position { use_of: PositionUse::Partition }, TapeStep::Unload], Vec::new())
    }

    /// Goes to the start of the partition.
    pub fn rewind(&mut self) -> (action: TapeAction)
        ensures
            (final(self)@, action@) == begun(
                old(self)@,
                seq![TapeStep::Rewind, TapeStep::Position { use_of: PositionUse::Partition }],
                Seq::empty(),
            ),
    {
        self.begin(vec![TapeStep::Rewind, TapeStep::Position { use_of: PositionUse::Partition }], Vec::new())
    }

    /// Asks where the drive stands.
    pub fn read_position(&mut self) -> (action: TapeAction)
        ensures
            (final(self)@, action@) == begun(
                old(self)@,
                seq![TapeStep::Position { use_of: PositionUse::Whole }],
                Seq::empty(),
            ),
    {
        self.begin(vec![TapeStep::Position { use_of: PositionUse::Whole }], Vec::new())
    }

    /// Goes to the end of the data of the partition, and brings its block.
    pub fn space_to_eod(&mut self) -> (action: TapeAction)
        ensures
            (final(self)@, action@) == begun(
                old(self)@,
                seq![TapeStep::Space, TapeStep::Position { use_of: PositionUse::Block }],
                Seq::empty(),
            ),
    {
        self.begin(vec![TapeStep::Space, TapeStep::Position { use_of: PositionUse::Block }], Vec::new())
    }

    /// Goes to a block; the partition is changed unless it is known to be the right one.
    pub fn locate(&mut self, partition: u8, block: u64) -> (action: TapeAction)
        ensures
            (final(self)@, action@) == begun(
                old(self)@,
                seq![
                    TapeStep::Locate {
                        partition,
                        block,
                        change: old(self)@.partition != Some(partition as u32),
                    },
                    TapeStep::Position { use_of: PositionUse::Partition },
                ],
                Seq::empty(),
            ),
    {
        let change = changes_partition(self.partition, partition);
        self.begin(
            vec![
                TapeStep::Locate { partition, block, change },
                TapeStep::Position { use_of: PositionUse::Partition },
            ],
            Vec::new(),
        )
    }

    /// Reads a record.
    pub fn read_record(&mut self) -> (action: TapeAction)
        ensures
            (final(self)@, action@) == begun(
                old(self)@,
                seq![TapeStep::Read],
                Seq::empty(),
            ),
    {
        self.begin(vec![TapeStep::Read], Vec::new())
    }

    /// Writes a record.
    pub fn write_record(&mut self, data: Vec<u8>) -> (action: TapeAction)
        ensures
            (final(self)@, action@) == begun(
                old(self)@,
                seq![TapeStep::Write],
                data@,
            ),
    {
        self.begin(vec![TapeStep::Write], data)
    }

    /// Writes a file mark.
    pub fn write_filemark(&mut self) -> (action: TapeAction)
        ensures
            (final(self)@, action@) == begun(
                old(self)@,
                seq![TapeStep::Filemark],
                Seq::empty(),
            ),
    {
        self.begin(vec![TapeStep::Filemark], Vec::new())
    }

    /// Has the drive write what it holds.
    pub fn flush(&mut self) -> (action: TapeAction)
        ensures
            (final(self)@, action@) == begun(
                old(self)@,
                seq![TapeStep::Flush],
                Seq::empty(),
            ),
    {
        self.begin(vec![TapeStep::Flush], Vec::new())
    }

    fn read_answered(&mut self, answer: ScsiAnswer) -> (action: TapeAction)
        requires
            answer.data@.len() == READ_BUF_LEN,
        ensures
            (final(self)@, action@) == read_replied(old(self)@, answer),
    {
        let result = answer.result;
        let mut data = answer.data;
        match classify_read(result.status, result.resid, result.sense.as_slice()) {
            ReadOutcome::Data(n) => {
                data.truncate(n);
                self.bring(TapeValue::Record(ReadRecord::Data(data)))
            },
            ReadOutcome::Filemark => self.bring(TapeValue::Record(ReadRecord::Filemark)),
            ReadOutcome::Eod => self.bring(TapeValue::Record(ReadRecord::Eod)),
            ReadOutcome::TooLong => {
                let error = self.scsi_error("READ（记录超过缓冲区）", &result);
                self.fail(error)
            },
            ReadOutcome::Failed => {
                let error = self.scsi_error("READ", &result);
                self.fail(error)
            },
        }
    }

    fn position_answered(&mut self, use_of: PositionUse, data: &[u8]) -> (action: TapeAction)
        ensures
            (final(self)@, action@) == position_replied(old(self)@, use_of, data@),
    {
        match parse_read_position(data) {
            None => {
                let error = Error::Io {
                    context: cat2(self.path.as_str(), " READ POSITION 响应过短"),
                    source: "响应不足 24 字节".to_owned(),
                };
                self.fail(error)
            },
            Some(p) => {
                self.partition = Some(p.partition);
                match use_of {
                    PositionUse::Partition => self.go_on(),
                    PositionUse::Block => self.bring(TapeValue::Block(p.block)),
                    PositionUse::Whole => self.bring(TapeValue::Position(p)),
                }
            },
        }
    }

    fn attributes_answered(data: &Vec<u8>, resid: i32) -> (list: Vec<MamAttributeRecord>)
        ensures
            record_models(list@) == attributes_that_came(data@, resid),
    {
        let n: usize = received(data.len(), resid);
        let came = vstd::slice::slice_subrange(data.as_slice(), 0, n);
        proof {
            if n >= 4 {
                assert(came@.subrange(4, n as int) =~= data@.subrange(4, n as int));
            }
        }
        parse_mam_attributes(came)
    }

    fn answered(&mut self, step: TapeStep, answer: ScsiAnswer) -> (action: TapeAction)
        requires
            old(self)@.steps.len() > 0,
            step == old(self)@.steps[0],
            answer.data@.len() == asked(step_kind(step)),
        ensures
            (final(self)@, action@) == carried_out(old(self)@, answer),
    {
        match step {
            TapeStep::SenseDensity => {
                let density: u8 = match parse_mode_sense_density(answer.data.as_slice()) {
                    Some(density) => density,
                    None => 0,
                };
                let page = variable_block_page(density);
                self.begin(
                    vec![TapeStep::SelectVariable],
                    vstd::slice::slice_to_vec(page.as_slice()),
                )
            },
            TapeStep::SenseWriteAnywhere => {
                let mut page = answer.data;
                if !needs_write_anywhere(&page) {
                    return self.bring(TapeValue::Done);
                }
                set_write_anywhere(&mut page);
                self.begin(
                    vec![
                        TapeStep::UnloadToSwitch,
                        TapeStep::SelectWriteAnywhere,
                        TapeStep::ReloadAfterSwitch,
                        TapeStep::SenseDensity,
                    ],
                    page,
                )
            },
            TapeStep::SensePartitions { .. } => {
                let mut page = answer.data;
                match configure_ltfs_partition_page(&mut page) {
                    Ok(_) => {
                        let length: usize = partition_page_length(&page);
                        let ghost whole = page@;
                        page.truncate(length);
                        assert(page@ =~= whole);
                        self.data = page;
                        self.go_on()
                    },
                    Err(error) => self.fail(error),
                }
            },
            TapeStep::EraseStatus => match classify_long_erase_sense(answer.data.as_slice()) {
                Ok(status) => self.bring(TapeValue::Erase(status)),
                Err(error) => self.fail(error),
            },
            TapeStep::ReadAttribute { id, .. } => {
                let list = TapeSession::attributes_answered(&answer.data, answer.result.resid);
                match attribute_value_of(&list, id) {
                    Ok(value) => self.bring(TapeValue::Bytes(value)),
                    Err(error) => self.fail(error),
                }
            },
            TapeStep::ReadAttributes { .. } => {
                let list = TapeSession::attributes_answered(&answer.data, answer.result.resid);
                self.bring(TapeValue::Attributes(list))
            },
            TapeStep::Position { use_of } => self.position_answered(use_of, answer.data.as_slice()),
            _ => {
                if does_lose_partition(step) {
                    self.partition = None;
                }
                self.go_on()
            },
        }
    }

    /// Takes the reply to the last command.
    pub fn next(&mut self, reply: ScsiReply) -> (action: TapeAction)
        requires
            fits(old(self)@, reply),
        ensures
            (final(self)@, action@) == replied(old(self)@, reply),
    {
        let step = self.steps[0];
        let answer = match reply {
            Ok(answer) => answer,
            Err(source) => {
                let context = context_of(step, self.path.as_str());
                return self.fail(Error::Io { context, source });
            },
        };
        if step == TapeStep::Read {
            return self.read_answered(answer);
        }
        if !answer.result.is_good() {
            let label = label_of(step);
            let error = self.scsi_error(label.as_str(), &answer.result);
            return self.fail(error);
        }
        self.answered(step, answer)
    }
}

// ---------------------------------------------------------------------------
// Laws
// ---------------------------------------------------------------------------

/// A drive that cannot have an extra partition is told so, and its cartridge is left as
/// it is: nothing that the page leads to is sent.
pub proof fn unfit_drive_is_not_partitioned(s: SessionState, erase: bool, answer: ScsiAnswer)
    requires
        s.steps == seq![
            TapeStep::SensePartitions { erase },
            TapeStep::SelectPartitions { erase },
            TapeStep::Partition { erase },
        ],
        answer.result.status == 0,
        !can_partition(answer.data@),
    ensures
        replied(s, Ok(answer)).1 is Failed,
        replied(s, Ok(answer)).0.steps.len() == 0,
{
}

/// A drive that can write anywhere already is left alone.
pub proof fn write_anywhere_is_left_alone(s: SessionState, answer: ScsiAnswer)
    requires
        s.steps == seq![TapeStep::SenseWriteAnywhere],
        answer.result.status == 0,
        writes_anywhere(answer.data@),
    ensures
        replied(s, Ok(answer)) == (ended(s), TapeActionModel::Finished(TapeValueModel::Done)),
{
}

/// A failed command ends its operation: no further command goes out.
pub proof fn failure_ends_the_operation(s: SessionState, reply: ScsiReply)
    requires
        fits(s, reply),
        replied(s, reply).1 is Failed,
    ensures
        replied(s, reply).0.steps.len() == 0,
{
}

/// A command that the drive refuses, or that cannot be sent, fails its operation. Only a
/// READ that is not good may still bring something.
pub proof fn refused_commands_fail(s: SessionState, reply: ScsiReply)
    requires
        fits(s, reply),
        reply is Err || (reply->Ok_0.result.status != 0 && !(s.steps[0] is Read)),
    ensures
        replied(s, reply).1 is Failed,
        replied(s, reply).0.partition == s.partition,
{
}

/// The partition that a session takes for granted was reported by the drive: no reply but
/// a position makes one known, and what may move the tape elsewhere makes it unknown.
pub proof fn known_partition_was_reported(s: SessionState, reply: ScsiReply)
    requires
        fits(s, reply),
    ensures
        match replied(s, reply).0.partition {
            None => s.partition is None || loses_partition(s.steps[0]),
            Some(p) => s.partition == Some(p) || (s.steps[0] is Position && reply is Ok
                && position_spec(reply->Ok_0.data@) is Some && position_spec(
                reply->Ok_0.data@,
            )->0.partition == p),
        },
{
}

/// A LOCATE in a partition that is not known to be the current one changes the partition.
pub proof fn locate_reaches_its_partition(s: SessionState, partition: u8, block: u64)
    ensures
        ({
            let step = TapeStep::Locate {
                partition,
                block,
                change: s.partition != Some(partition as u32),
            };
            begun(
                s,
                seq![step, TapeStep::Position { use_of: PositionUse::Partition }],
                Seq::empty(),
            ).1 == TapeActionModel::Command(
                ScsiKind::Locate {
                    partition,
                    block,
                    change: s.partition is None || s.partition->0 != partition,
                },
                Seq::<u8>::empty(),
            )
        }),
{
}

} // verus!
