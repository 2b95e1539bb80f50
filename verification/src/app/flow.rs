//! The commands that a tape operation gives, and the replies that it gets.
//!
//! An operation is a state machine: it names the next command, is told what came of it,
//! and names the next, until it has ended. Whoever runs it owns the device.
use vstd::prelude::*;
use vstd::string::*;

use crate::device::scsi::TapePosition;
use crate::device::tape::{LongEraseStatus, MamAttributeFormat, ReadRecord};

verus! {

/// A command for the drive.
#[derive(Debug, PartialEq, Eq)]
pub enum TapeCommand {
    EnsureWriteAnywhere,
    FormatLtfsPartitions,
    SetVariableBlock,
    ShortErase,
    StartLongErase,
    LongEraseStatus,
    CreateMinimumErasePartition,
    Rethread,
    RemovePartitions,
    Load,
    Rewind,
    ReadPosition,
    SpaceToEod,
    Locate { partition: u8, block: u64 },
    ReadRecord,
    WriteRecord { data: Vec<u8> },
    WriteFilemark,
    Flush,
    ReadMam { partition: u8, id: u16 },
    WriteMam { partition: u8, id: u16, format: MamAttributeFormat, value: Vec<u8> },
    Pause { seconds: u64 },
}

/// The model of a command.
pub enum CommandModel {
    EnsureWriteAnywhere,
    FormatLtfsPartitions,
    SetVariableBlock,
    ShortErase,
    StartLongErase,
    LongEraseStatus,
    CreateMinimumErasePartition,
    Rethread,
    RemovePartitions,
    Load,
    Rewind,
    ReadPosition,
    SpaceToEod,
    Locate { partition: u8, block: u64 },
    ReadRecord,
    WriteRecord { data: Seq<u8> },
    WriteFilemark,
    Flush,
    ReadMam { partition: u8, id: u16 },
    WriteMam { partition: u8, id: u16, format: MamAttributeFormat, value: Seq<u8> },
    Pause { seconds: u64 },
}

impl View for TapeCommand {
    type V = CommandModel;

    open spec fn view(&self) -> CommandModel {
        match *self {
            TapeCommand::EnsureWriteAnywhere => CommandModel::EnsureWriteAnywhere,
            TapeCommand::FormatLtfsPartitions => CommandModel::FormatLtfsPartitions,
            TapeCommand::SetVariableBlock => CommandModel::SetVariableBlock,
            TapeCommand::ShortErase => CommandModel::ShortErase,
            TapeCommand::StartLongErase => CommandModel::StartLongErase,
            TapeCommand::LongEraseStatus => CommandModel::LongEraseStatus,
            TapeCommand::CreateMinimumErasePartition => CommandModel::CreateMinimumErasePartition,
            TapeCommand::Rethread => CommandModel::Rethread,
            TapeCommand::RemovePartitions => CommandModel::RemovePartitions,
            TapeCommand::Load => CommandModel::Load,
            TapeCommand::Rewind => CommandModel::Rewind,
            TapeCommand::ReadPosition => CommandModel::ReadPosition,
            TapeCommand::SpaceToEod => CommandModel::SpaceToEod,
            TapeCommand::Locate { partition, block } => CommandModel::Locate { partition, block },
            TapeCommand::ReadRecord => CommandModel::ReadRecord,
            TapeCommand::WriteRecord { data } => CommandModel::WriteRecord { data: data@ },
            TapeCommand::WriteFilemark => CommandModel::WriteFilemark,
            TapeCommand::Flush => CommandModel::Flush,
            TapeCommand::ReadMam { partition, id } => CommandModel::ReadMam { partition, id },
            TapeCommand::WriteMam { partition, id, format, value } => CommandModel::WriteMam {
                partition,
                id,
                format,
                value: value@,
            },
            TapeCommand::Pause { seconds } => CommandModel::Pause { seconds },
        }
    }
}

/// What came of a command.
#[derive(Debug, PartialEq, Eq)]
pub enum TapeReply {
    Done,
    Failed(String),
    Record(ReadRecord),
    Position(TapePosition),
    Block(u64),
    Bytes(Vec<u8>),
    Erase(LongEraseStatus),
}

/// What is reported where a reply does not fit the command.
pub open spec fn misfit() -> Seq<char> {
    "设备回应与命令不符"@
}

/// Why a command that should just be done was not.
pub open spec fn failure(reply: TapeReply) -> Option<Seq<char>> {
    match reply {
        TapeReply::Done => None,
        TapeReply::Failed(message) => Some(message@),
        _ => Some(misfit()),
    }
}

/// Why a command that should just be done was not.
pub fn failure_of(reply: TapeReply) -> (message: Option<String>)
    ensures
        crate::text::opt_view(message) == failure(reply),
{
    match reply {
        TapeReply::Done => None,
        TapeReply::Failed(message) => Some(message),
        _ => Some("设备回应与命令不符".to_owned()),
    }
}

/// Why a command that should bring something did not.
pub open spec fn refusal(reply: TapeReply) -> Seq<char> {
    match reply {
        TapeReply::Failed(message) => message@,
        _ => misfit(),
    }
}

/// Why a command that should bring something did not.
pub fn refusal_of(reply: TapeReply) -> (message: String)
    ensures
        message@ == refusal(reply),
{
    match reply {
        TapeReply::Failed(message) => message,
        _ => "设备回应与命令不符".to_owned(),
    }
}

} // verus!
