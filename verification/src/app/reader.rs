//! The reader of the source: it runs ahead of the tape by a bounded number of blocks.
use vstd::prelude::*;
use vstd::string::*;

use super::data::SourcePipelineMessage;
use super::plan::{planned_models, PlannedFile, PlannedModel, PlannedSource, PlannedSourceModel};
use super::probe::saturating;
use crate::text::cat4;

verus! {

/// What the reader waits for.
#[derive(Debug, Clone, Copy, PartialEq, Eq, Structural)]
pub enum ReaderStage {
    /// The start of a file to be handed on.
    Announced,
    /// The file to be opened.
    Opening,
    /// A block that was handed back.
    Buffer,
    /// A block to be handed back, as no more may be made.
    Waiting,
    /// Bytes of the file.
    Reading,
    /// Bytes to be handed on.
    Sent,
    /// The end of a file to be handed on.
    Closing,
}

/// A reader of the files of a plan.
pub struct SourceReader {
    files: Vec<PlannedFile>,
    at: usize,
    stage: ReaderStage,
    actual_size: u64,
    allocated: usize,
    block_capacity: usize,
}

/// The model of a reader: the files, which of them is read and how much of it has been,
/// and how many blocks there are.
#[verifier::ext_equal]
pub struct ReaderState {
    pub files: Seq<PlannedModel>,
    pub at: nat,
    pub stage: ReaderStage,
    pub actual_size: u64,
    pub allocated: nat,
    pub block_capacity: nat,
}

impl View for SourceReader {
    type V = ReaderState;

    closed spec fn view(&self) -> ReaderState {
        ReaderState {
            files: planned_models(self.files@),
            at: self.at as nat,
            stage: self.stage,
            actual_size: self.actual_size,
            allocated: self.allocated as nat,
            block_capacity: self.block_capacity as nat,
        }
    }
}

/// What came of an action of the reader.
#[derive(Debug, PartialEq, Eq)]
pub enum ReaderReply {
    Done,
    /// A block was handed back.
    Block,
    /// No block was.
    NoBlock,
    /// The bytes that were read; none at the end of the file.
    Bytes(Vec<u8>),
    /// The other side is gone.
    Closed,
    Failed(String),
}

/// What the reader does next.
#[derive(Debug, PartialEq, Eq)]
pub enum ReaderAction {
    Send(SourcePipelineMessage),
    Open { source: PlannedSource, size: u64 },
    /// Takes a block that was handed back, where there is one.
    TakeBlock,
    /// Makes a block more, and reads into it.
    MakeBlock,
    /// Waits until a block is handed back.
    WaitForBlock,
    /// Reads into the block that was taken.
    Read,
    Finished,
    Failed(String),
}

/// The model of what the reader hands on.
pub enum MessageModel {
    FileStart { target: Seq<char>, description: Seq<char>, expected_size: u64 },
    Data(Seq<u8>),
    FileEnd { actual_size: u64 },
    Error(Seq<char>),
}

impl View for SourcePipelineMessage {
    type V = MessageModel;

    open spec fn view(&self) -> MessageModel {
        match *self {
            SourcePipelineMessage::FileStart { target, description, expected_size } =>
                MessageModel::FileStart {
                    target: target@,
                    description: description@,
                    expected_size,
                },
            SourcePipelineMessage::Data(data) => MessageModel::Data(data@),
            SourcePipelineMessage::FileEnd { actual_size } => MessageModel::FileEnd {
                actual_size,
            },
            SourcePipelineMessage::Error(message) => MessageModel::Error(message@),
        }
    }
}

/// The model of what the reader does next.
pub enum ReaderActionModel {
    Send(MessageModel),
    Open { source: PlannedSourceModel, size: u64 },
    TakeBlock,
    MakeBlock,
    WaitForBlock,
    Read,
    Finished,
    Failed(Seq<char>),
}

impl View for ReaderAction {
    type V = ReaderActionModel;

    open spec fn view(&self) -> ReaderActionModel {
        match *self {
            ReaderAction::Send(message) => ReaderActionModel::Send(message@),
            ReaderAction::Open { source, size } => ReaderActionModel::Open {
                source: source@,
                size,
            },
            ReaderAction::TakeBlock => ReaderActionModel::TakeBlock,
            ReaderAction::MakeBlock => ReaderActionModel::MakeBlock,
            ReaderAction::WaitForBlock => ReaderActionModel::WaitForBlock,
            ReaderAction::Read => ReaderActionModel::Read,
            ReaderAction::Finished => ReaderActionModel::Finished,
            ReaderAction::Failed(message) => ReaderActionModel::Failed(message@),
        }
    }
}

pub open spec fn reader_fails(s: ReaderState, message: Seq<char>) -> (
    ReaderState,
    ReaderActionModel,
) {
    (s, ReaderActionModel::Failed(message))
}

/// The next file begins, or the reader is done.
pub open spec fn file_next(s: ReaderState, cancelled: bool) -> (ReaderState, ReaderActionModel) {
    if s.at >= s.files.len() {
        (s, ReaderActionModel::Finished)
    } else if cancelled {
        reader_fails(s, "[cancelled]source reader 在打开下一个文件前停止"@)
    } else {
        let f = s.files[s.at as int];
        (
            ReaderState { stage: ReaderStage::Announced, actual_size: 0, ..s },
            ReaderActionModel::Send(
                MessageModel::FileStart {
                    target: f.target,
                    description: super::plan::source_text(f.source),
                    expected_size: f.size,
                },
            ),
        )
    }
}

/// The next block of the file.
pub open spec fn block_next(s: ReaderState, cancelled: bool) -> (ReaderState, ReaderActionModel) {
    if cancelled {
        reader_fails(s, "[cancelled]source reader 在数据块边界停止"@)
    } else {
        (ReaderState { stage: ReaderStage::Buffer, ..s }, ReaderActionModel::TakeBlock)
    }
}

/// Why an action failed.
pub open spec fn reader_refusal(reply: ReaderReply, closed: Seq<char>) -> Seq<char> {
    match reply {
        ReaderReply::Failed(message) => message@,
        _ => closed,
    }
}

/// What is reported where the tape side is gone.
pub open spec fn pipeline_closed() -> Seq<char> {
    "tape writer 已关闭 source pipeline"@
}

pub open spec fn recycle_closed() -> Seq<char> {
    "tape writer 已关闭 buffer recycle channel"@
}

/// The next action of the reader.
pub open spec fn reader_next(s: ReaderState, reply: ReaderReply, cancelled: bool) -> (
    ReaderState,
    ReaderActionModel,
) {
    let f = s.files[s.at as int];
    match s.stage {
        ReaderStage::Announced => match reply {
            ReaderReply::Done => (
                ReaderState { stage: ReaderStage::Opening, ..s },
                ReaderActionModel::Open { source: f.source, size: f.size },
            ),
            _ => reader_fails(s, reader_refusal(reply, pipeline_closed())),
        },
        ReaderStage::Opening => match reply {
            ReaderReply::Done => block_next(s, cancelled),
            _ => reader_fails(s, reader_refusal(reply, pipeline_closed())),
        },
        ReaderStage::Buffer => match reply {
            ReaderReply::Block => (
                ReaderState { stage: ReaderStage::Reading, ..s },
                ReaderActionModel::Read,
            ),
            ReaderReply::NoBlock => if s.allocated < s.block_capacity {
                (
                    ReaderState { stage: ReaderStage::Reading, allocated: s.allocated + 1, ..s },
                    ReaderActionModel::MakeBlock,
                )
            } else {
                (
                    ReaderState { stage: ReaderStage::Waiting, ..s },
                    ReaderActionModel::WaitForBlock,
                )
            },
            _ => reader_fails(s, reader_refusal(reply, recycle_closed())),
        },
        ReaderStage::Waiting => match reply {
            ReaderReply::Block => (
                ReaderState { stage: ReaderStage::Reading, ..s },
                ReaderActionModel::Read,
            ),
            _ => reader_fails(s, reader_refusal(reply, recycle_closed())),
        },
        ReaderStage::Reading => match reply {
            ReaderReply::Bytes(bytes) => if bytes@.len() == 0 {
                (
                    ReaderState {
                        stage: ReaderStage::Closing,
                        allocated: if s.allocated == 0 {
                            0
                        } else {
                            (s.allocated - 1) as nat
                        },
                        ..s
                    },
                    ReaderActionModel::Send(
                        MessageModel::FileEnd { actual_size: s.actual_size },
                    ),
                )
            } else {
                (
                    ReaderState {
                        stage: ReaderStage::Sent,
                        actual_size: saturating(s.actual_size as int, bytes@.len() as int),
                        ..s
                    },
                    ReaderActionModel::Send(MessageModel::Data(bytes@)),
                )
            },
            _ => reader_fails(
                s,
                "读取 "@ + super::plan::source_text(f.source) + " 失败: "@ + reader_refusal(
                    reply,
                    pipeline_closed(),
                ),
            ),
        },
        ReaderStage::Sent => match reply {
            ReaderReply::Done => block_next(s, cancelled),
            _ => reader_fails(s, reader_refusal(reply, pipeline_closed())),
        },
        ReaderStage::Closing => match reply {
            ReaderReply::Done => file_next(ReaderState { at: s.at + 1, ..s }, cancelled),
            _ => reader_fails(s, reader_refusal(reply, pipeline_closed())),
        },
    }
}

fn refusal_in(reply: ReaderReply, closed: &str) -> (message: String)
    ensures
        message@ == reader_refusal(reply, closed@),
{
    match reply {
        ReaderReply::Failed(message) => message,
        _ => closed.to_owned(),
    }
}

/// A reader before its first file.
pub open spec fn reader_start(files: Seq<PlannedModel>, block_capacity: nat) -> ReaderState {
    ReaderState {
        files,
        at: 0,
        stage: ReaderStage::Closing,
        actual_size: 0,
        allocated: 0,
        block_capacity,
    }
}

impl SourceReader {
    pub closed spec fn wf(&self) -> bool {
        self.at < self.files@.len()
    }

    /// Begins to read the files of a plan with so many blocks.
    pub fn new(files: Vec<PlannedFile>, block_capacity: usize, cancelled: bool) -> (result: (
        SourceReader,
        ReaderAction,
    ))
        ensures
            (result.0@, result.1@) == file_next(
                reader_start(planned_models(files@), block_capacity as nat),
                cancelled,
            ),
            files@.len() > 0 ==> result.0.wf(),
    {
        let mut reader = SourceReader {
            files,
            at: 0,
            stage: ReaderStage::Closing,
            actual_size: 0,
            allocated: 0,
            block_capacity,
        };
        let action = reader.next_file(cancelled);
        (reader, action)
    }

    fn next_file(&mut self, cancelled: bool) -> (action: ReaderAction)
        ensures
            (final(self)@, action@) == file_next(old(self)@, cancelled),
            final(self).at == old(self).at,
            final(self).files == old(self).files,
    {
        if self.at >= self.files.len() {
            return ReaderAction::Finished;
        }
        if cancelled {
            return ReaderAction::Failed(
                "[cancelled]source reader 在打开下一个文件前停止".to_owned(),
            );
        }
        self.stage = ReaderStage::Announced;
        self.actual_size = 0;
        let f = &self.files[self.at];
        assert(planned_models(self.files@)[self.at as int] == f@);
        ReaderAction::Send(
            SourcePipelineMessage::FileStart {
                target: f.target.clone(),
                description: f.source.description(),
                expected_size: f.size,
            },
        )
    }

    fn next_block(&mut self, cancelled: bool) -> (action: ReaderAction)
        ensures
            (final(self)@, action@) == block_next(old(self)@, cancelled),
            final(self).at == old(self).at,
            final(self).files == old(self).files,
    {
        if cancelled {
            return ReaderAction::Failed("[cancelled]source reader 在数据块边界停止".to_owned());
        }
        self.stage = ReaderStage::Buffer;
        ReaderAction::TakeBlock
    }

    /// The next action, given what came of the last one and whether the write has been
    /// asked to stop.
    pub fn next(&mut self, reply: ReaderReply, cancelled: bool) -> (action: ReaderAction)
        requires
            old(self).wf(),
        ensures
            (final(self)@, action@) == reader_next(old(self)@, reply, cancelled),
            action is Finished || final(self).wf(),
    {
        assert(self@.files[self.at as int] == self.files@[self.at as int]@);
        match self.stage {
            ReaderStage::Announced => match reply {
                ReaderReply::Done => {
                    self.stage = ReaderStage::Opening;
                    let f = &self.files[self.at];
                    ReaderAction::Open { source: f.source.copy(), size: f.size }
                },
                other => ReaderAction::Failed(
                    refusal_in(other, "tape writer 已关闭 source pipeline"),
                ),
            },
            ReaderStage::Opening => match reply {
                ReaderReply::Done => self.next_block(cancelled),
                other => ReaderAction::Failed(
                    refusal_in(other, "tape writer 已关闭 source pipeline"),
                ),
            },
            ReaderStage::Buffer => match reply {
                ReaderReply::Block => {
                    self.stage = ReaderStage::Reading;
                    ReaderAction::Read
                },
                ReaderReply::NoBlock => {
                    if self.allocated < self.block_capacity {
                        self.allocated = self.allocated + 1;
                        self.stage = ReaderStage::Reading;
                        ReaderAction::MakeBlock
                    } else {
                        self.stage = ReaderStage::Waiting;
                        ReaderAction::WaitForBlock
                    }
                },
                other => ReaderAction::Failed(
                    refusal_in(other, "tape writer 已关闭 buffer recycle channel"),
                ),
            },
            ReaderStage::Waiting => match reply {
                ReaderReply::Block => {
                    self.stage = ReaderStage::Reading;
                    ReaderAction::Read
                },
                other => ReaderAction::Failed(
                    refusal_in(other, "tape writer 已关闭 buffer recycle channel"),
                ),
            },
            ReaderStage::Reading => match reply {
                ReaderReply::Bytes(bytes) => {
                    if bytes.len() == 0 {
                        self.allocated = self.allocated.saturating_sub(1);
                        self.stage = ReaderStage::Closing;
                        ReaderAction::Send(
                            SourcePipelineMessage::FileEnd { actual_size: self.actual_size },
                        )
                    } else {
                        self.actual_size = self.actual_size.saturating_add(bytes.len() as u64);
                        self.stage = ReaderStage::Sent;
                        ReaderAction::Send(SourcePipelineMessage::Data(bytes))
                    }
                },
                other => {
                    let message = refusal_in(other, "tape writer 已关闭 source pipeline");
                    ReaderAction::Failed(
                        cat4(
                            "读取 ",
                            self.files[self.at].source.description().as_str(),
                            " 失败: ",
                            message.as_str(),
                        ),
                    )
                },
            },
            ReaderStage::Sent => match reply {
                ReaderReply::Done => self.next_block(cancelled),
                other => ReaderAction::Failed(
                    refusal_in(other, "tape writer 已关闭 source pipeline"),
                ),
            },
            ReaderStage::Closing => match reply {
                ReaderReply::Done => {
                    assert(self.at < self.files.len());
                    self.at = self.at + 1;
                    self.next_file(cancelled)
                },
                other => ReaderAction::Failed(
                    refusal_in(other, "tape writer 已关闭 source pipeline"),
                ),
            },
        }
    }
}

/// The reader never makes more blocks than it may have: how far it runs ahead of the tape
/// is bounded.
pub proof fn blocks_are_bounded(s: ReaderState, reply: ReaderReply, cancelled: bool)
    requires
        s.allocated <= s.block_capacity,
    ensures
        reader_next(s, reply, cancelled).0.allocated <= s.block_capacity,
        reader_next(s, reply, cancelled).0.block_capacity == s.block_capacity,
{
}

/// What is handed on at the end of a file is the number of bytes that were handed on of
/// it, as long as that is in range.
pub proof fn sizes_add_up(s: ReaderState, bytes: Vec<u8>, cancelled: bool)
    requires
        s.stage is Reading,
        bytes@.len() > 0,
        s.actual_size + bytes@.len() <= u64::MAX,
    ensures
        reader_next(s, ReaderReply::Bytes(bytes), cancelled).0.actual_size == s.actual_size
            + bytes@.len(),
        reader_next(s, ReaderReply::Bytes(bytes), cancelled).1 == ReaderActionModel::Send(
            MessageModel::Data(bytes@),
        ),
{
}

} // verus!
