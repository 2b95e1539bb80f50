//! Erasing a cartridge.
use vstd::prelude::*;
use vstd::string::*;

use super::flow::{failure, failure_of, refusal, refusal_of, CommandModel, TapeCommand, TapeReply};
use crate::device::tape::LongEraseStatus;
use crate::text::{cat2, cat4, opt_view};

verus! {

#[derive(Debug, Clone, Copy, PartialEq, Eq, Structural)]
pub enum EraseMode {
    Short,
    Long,
    MinimumPartitionLong,
}

/// The name of a mode on the command line.
pub open spec fn mode_name(mode: EraseMode) -> Seq<char> {
    match mode {
        EraseMode::Short => "short"@,
        EraseMode::Long => "long"@,
        EraseMode::MinimumPartitionLong => "minimum"@,
    }
}

impl EraseMode {
    pub fn cli_name(self) -> (name: &'static str)
        ensures
            name@ == mode_name(self),
    {
        match self {
            EraseMode::Short => "short",
            EraseMode::Long => "long",
            EraseMode::MinimumPartitionLong => "minimum",
        }
    }
}

#[derive(Debug, Clone, Copy, PartialEq, Eq, Structural)]
pub enum ErasePhase {
    Preparing,
    CreatingMinimumPartition,
    Rethreading,
    Erasing,
    RestoringUnpartitioned,
    Completed,
}

/// What is reported while a cartridge is erased.
#[derive(Debug, Clone, PartialEq, Eq)]
pub struct EraseEvent {
    pub phase: ErasePhase,
    /// How far the drive is, out of 65535.
    pub progress: Option<u16>,
    pub message: String,
}

/// The model of an event.
#[verifier::ext_equal]
pub struct EraseNote {
    pub phase: ErasePhase,
    pub progress: Option<u16>,
    pub message: Seq<char>,
}

impl View for EraseEvent {
    type V = EraseNote;

    open spec fn view(&self) -> EraseNote {
        EraseNote { phase: self.phase, progress: self.progress, message: self.message@ }
    }
}

#[derive(Debug, Clone, Copy, PartialEq, Eq, Structural)]
pub struct EraseResult {
    pub mode: EraseMode,
    pub elapsed_seconds: u64,
}

/// Where an erase run stands: the command that it waits for.
#[derive(Debug, Clone, Copy, PartialEq, Eq, Structural)]
pub enum EraseStage {
    ShortErase,
    LongLoad,
    LongRemove,
    LongRethread,
    MinimumCreate,
    MinimumRethread,
    Start,
    Poll,
    Wait,
    RestoreRethread,
    RestoreRemove,
    Ended,
}

/// A run that erases the cartridge in a drive.
pub struct EraseSession {
    mode: EraseMode,
    stage: EraseStage,
    erase_error: Option<String>,
}

/// The model of a run: the mode, the stage, and what the erase itself failed with.
#[verifier::ext_equal]
pub struct EraseState {
    pub mode: EraseMode,
    pub stage: EraseStage,
    pub erase_error: Option<Seq<char>>,
}

impl View for EraseSession {
    type V = EraseState;

    closed spec fn view(&self) -> EraseState {
        EraseState {
            mode: self.mode,
            stage: self.stage,
            erase_error: opt_view(self.erase_error),
        }
    }
}

/// What a run does next.
#[derive(Debug, PartialEq, Eq)]
pub enum EraseAction {
    Command(TapeCommand),
    Finished(Result<(), String>),
}

/// The model of what a run does next.
pub enum EraseActionModel {
    Command(CommandModel),
    Finished(Result<(), Seq<char>>),
}

impl View for EraseAction {
    type V = EraseActionModel;

    open spec fn view(&self) -> EraseActionModel {
        match *self {
            EraseAction::Command(command) => EraseActionModel::Command(command@),
            EraseAction::Finished(result) => EraseActionModel::Finished(
                match result {
                    Ok(_) => Ok(()),
                    Err(message) => Err(message@),
                },
            ),
        }
    }
}

/// A move of a run: what is reported first, and what is done then.
#[derive(Debug, PartialEq, Eq)]
pub struct EraseMove {
    pub event: Option<EraseEvent>,
    pub action: EraseAction,
}

/// A move of a run, with the state behind it.
#[verifier::ext_equal]
pub struct EraseTurn {
    pub state: EraseState,
    pub event: Option<EraseNote>,
    pub action: EraseActionModel,
}

pub open spec fn move_of(state: EraseState, m: EraseMove) -> EraseTurn {
    EraseTurn {
        state,
        event: match m.event {
            Some(e) => Some(e@),
            None => None,
        },
        action: m.action@,
    }
}

pub open spec fn erase_note(phase: ErasePhase, progress: Option<u16>, message: Seq<char>) -> Option<
    EraseNote,
> {
    Some(EraseNote { phase, progress, message })
}

/// The run goes on with a command.
pub open spec fn goes_on(
    s: EraseState,
    stage: EraseStage,
    event: Option<EraseNote>,
    command: CommandModel,
) -> EraseTurn {
    EraseTurn {
        state: EraseState { stage, ..s },
        event,
        action: EraseActionModel::Command(command),
    }
}

/// The run has ended.
pub open spec fn ends(s: EraseState, result: Result<(), Seq<char>>) -> EraseTurn {
    EraseTurn {
        state: EraseState { stage: EraseStage::Ended, ..s },
        event: match result {
            Ok(_) => erase_note(ErasePhase::Completed, None, "擦除完成"@),
            Err(_) => None,
        },
        action: EraseActionModel::Finished(result),
    }
}

/// The erase itself is over. A run with a temporary partition removes it, whatever came
/// of the erase.
pub open spec fn erase_over(s: EraseState, error: Option<Seq<char>>) -> EraseTurn {
    if s.mode is MinimumPartitionLong {
        goes_on(
            EraseState { erase_error: error, ..s },
            EraseStage::RestoreRethread,
            erase_note(ErasePhase::RestoringUnpartitioned, None, "移除临时分区并恢复未分区介质"@),
            CommandModel::Rethread,
        )
    } else {
        ends(
            s,
            match error {
                None => Ok(()),
                Some(message) => Err(message),
            },
        )
    }
}

/// What a run with a temporary partition ends with.
pub open spec fn restored(s: EraseState, error: Option<Seq<char>>) -> EraseTurn {
    ends(
        s,
        match (s.erase_error, error) {
            (None, None) => Ok(()),
            (Some(erase), None) => Err(erase),
            (None, Some(restore)) => Err(
                "long erase 已完成，但恢复未分区介质失败："@ + restore,
            ),
            (Some(erase), Some(restore)) => Err(
                "long erase 失败："@ + erase + "；恢复未分区介质也失败："@ + restore,
            ),
        },
    )
}

/// The first command of a run.
pub open spec fn erase_begin(mode: EraseMode) -> EraseTurn {
    let s = EraseState { mode, stage: EraseStage::Ended, erase_error: None };
    match mode {
        EraseMode::Short => goes_on(
            s,
            EraseStage::ShortErase,
            erase_note(ErasePhase::Erasing, None, "执行 short erase"@),
            CommandModel::ShortErase,
        ),
        EraseMode::Long => goes_on(s, EraseStage::LongLoad, None, CommandModel::Load),
        EraseMode::MinimumPartitionLong => goes_on(
            s,
            EraseStage::MinimumCreate,
            erase_note(ErasePhase::CreatingMinimumPartition, None, "创建最小 P0 临时分区"@),
            CommandModel::CreateMinimumErasePartition,
        ),
    }
}

/// The start of the erase itself.
pub open spec fn erase_starts(s: EraseState) -> EraseTurn {
    goes_on(
        s,
        EraseStage::Start,
        erase_note(ErasePhase::Erasing, None, "启动 long erase"@),
        CommandModel::StartLongErase,
    )
}

/// The next move of a run, given what came of its last command.
pub open spec fn erase_next(s: EraseState, reply: TapeReply) -> EraseTurn {
    match s.stage {
        EraseStage::ShortErase => match failure(reply) {
            None => ends(s, Ok(())),
            Some(message) => ends(s, Err(message)),
        },
        EraseStage::LongLoad => match failure(reply) {
            None => goes_on(
                s,
                EraseStage::LongRemove,
                erase_note(
                    ErasePhase::RestoringUnpartitioned,
                    None,
                    "移除现有分区，准备全带 long erase"@,
                ),
                CommandModel::RemovePartitions,
            ),
            Some(message) => ends(s, Err(message)),
        },
        EraseStage::LongRemove => match failure(reply) {
            None => goes_on(
                s,
                EraseStage::LongRethread,
                erase_note(ErasePhase::Rethreading, None, "重新穿带以应用未分区布局"@),
                CommandModel::Rethread,
            ),
            Some(message) => ends(s, Err(message)),
        },
        EraseStage::LongRethread => match failure(reply) {
            None => erase_starts(s),
            Some(message) => ends(s, Err(message)),
        },
        EraseStage::MinimumCreate => match failure(reply) {
            None => goes_on(
                s,
                EraseStage::MinimumRethread,
                erase_note(ErasePhase::Rethreading, None, "重新穿带以应用临时分区"@),
                CommandModel::Rethread,
            ),
            Some(message) => ends(s, Err(message)),
        },
        EraseStage::MinimumRethread => match failure(reply) {
            None => erase_starts(s),
            Some(message) => erase_over(s, Some(message)),
        },
        EraseStage::Start => match failure(reply) {
            None => goes_on(s, EraseStage::Poll, None, CommandModel::LongEraseStatus),
            Some(message) => erase_over(s, Some(message)),
        },
        EraseStage::Poll => match reply {
            TapeReply::Erase(LongEraseStatus::Complete) => erase_over(s, None),
            TapeReply::Erase(LongEraseStatus::InProgress { progress }) => goes_on(
                s,
                EraseStage::Wait,
                erase_note(ErasePhase::Erasing, progress, "long erase 进行中"@),
                CommandModel::Pause { seconds: 30 },
            ),
            _ => erase_over(s, Some(refusal(reply))),
        },
        EraseStage::Wait => goes_on(s, EraseStage::Poll, None, CommandModel::LongEraseStatus),
        EraseStage::RestoreRethread => match failure(reply) {
            None => goes_on(s, EraseStage::RestoreRemove, None, CommandModel::RemovePartitions),
            Some(message) => restored(s, Some(message)),
        },
        EraseStage::RestoreRemove => restored(s, failure(reply)),
        EraseStage::Ended => ends(s, Err(refusal(reply))),
    }
}

/// What is reported before the first command.
pub fn opening_event() -> (event: EraseEvent)
    ensures
        event@ == (EraseNote {
            phase: ErasePhase::Preparing,
            progress: None,
            message: "打开并独占磁带设备"@,
        }),
{
    EraseEvent {
        phase: ErasePhase::Preparing,
        progress: None,
        message: "打开并独占磁带设备".to_owned(),
    }
}

fn emit_erase(phase: ErasePhase, progress: Option<u16>, message: &str) -> (event: Option<
    EraseEvent,
>)
    ensures
        event is Some,
        Some(event->0@) == erase_note(phase, progress, message@),
{
    Some(EraseEvent { phase, progress, message: message.to_owned() })
}

impl EraseSession {
    /// What is reported of the run once it has ended well.
    pub fn result(&self, elapsed_seconds: u64) -> (result: EraseResult)
        ensures
            result == (EraseResult { mode: self@.mode, elapsed_seconds }),
    {
        EraseResult { mode: self.mode, elapsed_seconds }
    }

    /// Begins a run.
    pub fn new(mode: EraseMode) -> (result: (EraseSession, EraseMove))
        ensures
            move_of(result.0@, result.1) == erase_begin(mode),
    {
        match mode {
            EraseMode::Short => (
                EraseSession { mode, stage: EraseStage::ShortErase, erase_error: None },
                EraseMove {
                    event: emit_erase(ErasePhase::Erasing, None, "执行 short erase"),
                    action: EraseAction::Command(TapeCommand::ShortErase),
                },
            ),
            EraseMode::Long => (
                EraseSession { mode, stage: EraseStage::LongLoad, erase_error: None },
                EraseMove { event: None, action: EraseAction::Command(TapeCommand::Load) },
            ),
            EraseMode::MinimumPartitionLong => (
                EraseSession { mode, stage: EraseStage::MinimumCreate, erase_error: None },
                EraseMove {
                    event: emit_erase(
                        ErasePhase::CreatingMinimumPartition,
                        None,
                        "创建最小 P0 临时分区",
                    ),
                    action: EraseAction::Command(TapeCommand::CreateMinimumErasePartition),
                },
            ),
        }
    }

    fn go_on(&mut self, stage: EraseStage, event: Option<EraseEvent>, command: TapeCommand) -> (m:
        EraseMove)
        ensures
            move_of(final(self)@, m) == goes_on(
                old(self)@,
                stage,
                match event {
                    Some(e) => Some(e@),
                    None => None,
                },
                command@,
            ),
    {
        self.stage = stage;
        EraseMove { event, action: EraseAction::Command(command) }
    }

    fn end(&mut self, result: Result<(), String>) -> (m: EraseMove)
        ensures
            move_of(final(self)@, m) == ends(
                old(self)@,
                match result {
                    Ok(_) => Ok(()),
                    Err(message) => Err(message@),
                },
            ),
    {
        self.stage = EraseStage::Ended;
        let event = match &result {
            Ok(_) => emit_erase(ErasePhase::Completed, None, "擦除完成"),
            Err(_) => None,
        };
        EraseMove { event, action: EraseAction::Finished(result) }
    }

    fn over(&mut self, error: Option<String>) -> (m: EraseMove)
        ensures
            move_of(final(self)@, m) == erase_over(old(self)@, opt_view(error)),
    {
        if self.mode == EraseMode::MinimumPartitionLong {
            self.erase_error = error;
            self.go_on(
                EraseStage::RestoreRethread,
                emit_erase(
                    ErasePhase::RestoringUnpartitioned,
                    None,
                    "移除临时分区并恢复未分区介质",
                ),
                TapeCommand::Rethread,
            )
        } else {
            self.end(
                match error {
                    None => Ok(()),
                    Some(message) => Err(message),
                },
            )
        }
    }

    fn restore(&mut self, error: Option<String>) -> (m: EraseMove)
        ensures
            move_of(final(self)@, m) == restored(old(self)@, opt_view(error)),
    {
        let result = match (&self.erase_error, error) {
            (None, None) => Ok(()),
            (Some(erase), None) => Err(erase.clone()),
            (None, Some(restore)) => Err(
                cat2("long erase 已完成，但恢复未分区介质失败：", restore.as_str()),
            ),
            (Some(erase), Some(restore)) => Err(
                cat4(
                    "long erase 失败：",
                    erase.as_str(),
                    "；恢复未分区介质也失败：",
                    restore.as_str(),
                ),
            ),
        };
        self.end(result)
    }

    fn begin_erase(&mut self) -> (m: EraseMove)
        ensures
            move_of(final(self)@, m) == erase_starts(old(self)@),
    {
        self.go_on(
            EraseStage::Start,
            emit_erase(ErasePhase::Erasing, None, "启动 long erase"),
            TapeCommand::StartLongErase,
        )
    }

    /// The next move, given what came of the last command.
    pub fn run(&mut self, reply: TapeReply) -> (m: EraseMove)
        ensures
            move_of(final(self)@, m) == erase_next(old(self)@, reply),
    {
        match self.stage {
            EraseStage::ShortErase => match failure_of(reply) {
                None => self.end(Ok(())),
                Some(message) => self.end(Err(message)),
            },
            EraseStage::LongLoad => match failure_of(reply) {
                None => self.go_on(
                    EraseStage::LongRemove,
                    emit_erase(
                        ErasePhase::RestoringUnpartitioned,
                        None,
                        "移除现有分区，准备全带 long erase",
                    ),
                    TapeCommand::RemovePartitions,
                ),
                Some(message) => self.end(Err(message)),
            },
            EraseStage::LongRemove => match failure_of(reply) {
                None => self.go_on(
                    EraseStage::LongRethread,
                    emit_erase(ErasePhase::Rethreading, None, "重新穿带以应用未分区布局"),
                    TapeCommand::Rethread,
                ),
                Some(message) => self.end(Err(message)),
            },
            EraseStage::LongRethread => match failure_of(reply) {
                None => self.begin_erase(),
                Some(message) => self.end(Err(message)),
            },
            EraseStage::MinimumCreate => match failure_of(reply) {
                None => self.go_on(
                    EraseStage::MinimumRethread,
                    emit_erase(ErasePhase::Rethreading, None, "重新穿带以应用临时分区"),
                    TapeCommand::Rethread,
                ),
                Some(message) => self.end(Err(message)),
            },
            EraseStage::MinimumRethread => match failure_of(reply) {
                None => self.begin_erase(),
                Some(message) => self.over(Some(message)),
            },
            EraseStage::Start => match failure_of(reply) {
                None => self.go_on(EraseStage::Poll, None, TapeCommand::LongEraseStatus),
                Some(message) => self.over(Some(message)),
            },
            EraseStage::Poll => match reply {
                TapeReply::Erase(LongEraseStatus::Complete) => self.over(None),
                TapeReply::Erase(LongEraseStatus::InProgress { progress }) => self.go_on(
                    EraseStage::Wait,
                    emit_erase(ErasePhase::Erasing, progress, "long erase 进行中"),
                    TapeCommand::Pause { seconds: 30 },
                ),
                other => self.over(Some(refusal_of(other))),
            },
            EraseStage::Wait => self.go_on(EraseStage::Poll, None, TapeCommand::LongEraseStatus),
            EraseStage::RestoreRethread => match failure_of(reply) {
                None => self.go_on(EraseStage::RestoreRemove, None, TapeCommand::RemovePartitions),
                Some(message) => self.restore(Some(message)),
            },
            EraseStage::RestoreRemove => {
                let error = failure_of(reply);
                self.restore(error)
            },
            EraseStage::Ended => {
                let message = refusal_of(reply);
                self.end(Err(message))
            },
        }
    }
}

/// Stages at which the temporary partition of a minimum erase is on the tape.
pub open spec fn partition_present(s: EraseState) -> bool {
    s.mode is MinimumPartitionLong && (s.stage is MinimumRethread || s.stage is Start
        || s.stage is Poll || s.stage is Wait || s.stage is RestoreRethread
        || s.stage is RestoreRemove)
}

/// Once the temporary partition of a minimum erase is on the tape, the run does not end
/// before it has tried to remove it.
pub proof fn temporary_partition_is_removed(s: EraseState, reply: TapeReply)
    requires
        partition_present(s),
        erase_next(s, reply).action is Finished,
    ensures
        s.stage is RestoreRethread || s.stage is RestoreRemove,
{
}

/// A run reports success only where every command was done, the erase was complete, and,
/// with a temporary partition, the restore was done too.
pub proof fn erase_success_is_earned(s: EraseState, reply: TapeReply)
    requires
        erase_next(s, reply).action == EraseActionModel::Finished(Ok(())),
    ensures
        s.stage is ShortErase ==> reply is Done,
        s.stage is Poll ==> reply == TapeReply::Erase(LongEraseStatus::Complete)
            && !(s.mode is MinimumPartitionLong),
        s.stage is ShortErase || s.stage is Poll || (s.stage is RestoreRemove && reply is Done
            && s.erase_error is None),
{
}

} // verus!
