//! How a write is committed: the index of the data partition, its copy in the index
//! partition, and the coherency information of both, in this order.
use vstd::prelude::*;
use vstd::string::*;
use vstd::utf8::*;

use super::append::{vci_read, write_vci_fault};
use super::flow::{failure, failure_of, refusal, refusal_of, CommandModel, TapeCommand, TapeReply};
use super::probe::saturating;
use super::write_state::{
    check_write_stop, options_at, progress_event, stop_spec, EventModel, WriteEvent, WriteFailpoint,
    WriteOptions, WritePhase, WriteProgress,
};
use crate::device::tape::MamAttributeFormat;
use crate::ltfs::index::{Index, IndexModel, TapePos};
use crate::ltfs::index_law::solid;
use crate::ltfs::index_xml::{index_events, index_from, index_xml, IndexFault};
use crate::ltfs::label::LabelModel;
use crate::ltfs::mam::{
    eight_bytes, is_uuid, is_vcr, vci_bytes, VciModel, VolumeCoherencyInformation,
    VOLUME_CHANGE_REFERENCE, VOLUME_COHERENCY_INFORMATION,
};
use crate::ltfs::stored_law::{index_writable, recounted, stored_index_reads_back};
use crate::ltfs::xml::{read_plainly, XmlEvent};
use crate::text::cat2;

verus! {

// ---------------------------------------------------------------------------
// The two copies of the index
// ---------------------------------------------------------------------------

/// The index of the new generation, as it stands in the data partition.
pub open spec fn data_index_of(
    index: IndexModel,
    now: Seq<char>,
    highest_uid: u64,
    at: TapePos,
    last: TapePos,
) -> IndexModel {
    IndexModel {
        generation: saturating(index.generation as int, 1),
        highest_file_uid: Some(highest_uid),
        update_time: now,
        self_location: at,
        previous_location: Some(last),
        ..index
    }
}

/// Its copy in the index partition, which points back to it.
pub open spec fn index_copy_of(data_index: IndexModel, at: TapePos) -> IndexModel {
    IndexModel {
        self_location: at,
        previous_location: Some(data_index.self_location),
        ..data_index
    }
}

/// `bytes` in pieces of `size`, the last of which may be shorter.
pub open spec fn chunks_of(bytes: Seq<u8>, size: nat) -> Seq<Seq<u8>>
    decreases bytes.len(),
{
    if bytes.len() == 0 || size == 0 {
        Seq::empty()
    } else if bytes.len() <= size {
        seq![bytes]
    } else {
        seq![bytes.subrange(0, size as int)] + chunks_of(
            bytes.subrange(size as int, bytes.len() as int),
            size,
        )
    }
}

// ---------------------------------------------------------------------------
// The script
// ---------------------------------------------------------------------------

/// What a step does.
#[derive(Debug, PartialEq, Eq)]
pub enum CommitWork {
    /// The phase is reported.
    Report(WritePhase),
    Command(TapeCommand),
    /// The write may stop here.
    Stop(WriteFailpoint),
    /// The volume change reference is read.
    Reference,
    /// The coherency information of a partition is written.
    Coherency { partition: u8, block: u64 },
}

/// The model of what a step does.
pub enum CommitWorkModel {
    Report(WritePhase),
    Command(CommandModel),
    Stop(WriteFailpoint),
    Reference,
    Coherency { partition: u8, block: u64 },
}

impl View for CommitWork {
    type V = CommitWorkModel;

    open spec fn view(&self) -> CommitWorkModel {
        match *self {
            CommitWork::Report(phase) => CommitWorkModel::Report(phase),
            CommitWork::Command(command) => CommitWorkModel::Command(command@),
            CommitWork::Stop(point) => CommitWorkModel::Stop(point),
            CommitWork::Reference => CommitWorkModel::Reference,
            CommitWork::Coherency { partition, block } => CommitWorkModel::Coherency {
                partition,
                block,
            },
        }
    }
}

/// A step of a commit.
#[derive(Debug, PartialEq, Eq)]
pub struct CommitStep {
    pub work: CommitWork,
    /// Where the tape stands once the step is done.
    pub at: Option<TapePos>,
    /// Both indexes are written: a failure leaves only the coherency information behind.
    pub coherency: bool,
}

/// The model of a step.
#[verifier::ext_equal]
pub struct CommitStepModel {
    pub work: CommitWorkModel,
    pub at: Option<TapePos>,
    pub coherency: bool,
}

impl View for CommitStep {
    type V = CommitStepModel;

    open spec fn view(&self) -> CommitStepModel {
        CommitStepModel { work: self.work@, at: self.at, coherency: self.coherency }
    }
}

pub open spec fn commit_models(list: Seq<CommitStep>) -> Seq<CommitStepModel> {
    list.map_values(|s: CommitStep| s@)
}

/// A step that only does something.
pub open spec fn step(work: CommitWorkModel) -> CommitStepModel {
    CommitStepModel { work, at: None, coherency: false }
}

/// A step behind which the tape stands elsewhere.
pub open spec fn step_to(work: CommitWorkModel, at: TapePos) -> CommitStepModel {
    CommitStepModel { work, at: Some(at), coherency: false }
}

/// A step once both indexes are written.
pub open spec fn late_step(work: CommitWorkModel) -> CommitStepModel {
    CommitStepModel { work, at: None, coherency: true }
}

/// The records of a document.
pub open spec fn record_steps(chunks: Seq<Seq<u8>>) -> Seq<CommitStepModel> {
    chunks.map_values(
        |c: Seq<u8>| step(CommitWorkModel::Command(CommandModel::WriteRecord { data: c })),
    )
}

/// A file mark, the records of an index, and another file mark.
pub open spec fn index_steps(at: TapePos, text: Seq<char>, blocksize: nat) -> Seq<CommitStepModel> {
    seq![step_to(CommitWorkModel::Command(CommandModel::WriteFilemark), at)] + record_steps(
        chunks_of(encode_utf8(text), blocksize),
    ) + seq![step(CommitWorkModel::Command(CommandModel::WriteFilemark))]
}

/// The index of the data partition.
pub open spec fn data_index_steps(data_index: IndexModel, blocksize: nat) -> Seq<CommitStepModel> {
    seq![step(CommitWorkModel::Report(WritePhase::FinalizingDataIndex))] + index_steps(
        data_index.self_location,
        index_xml(data_index),
        blocksize,
    )
}

/// Its copy in the index partition.
pub open spec fn index_copy_steps(copy: IndexModel, write_block: u64, blocksize: nat) -> Seq<
    CommitStepModel,
> {
    seq![
        step(CommitWorkModel::Report(WritePhase::SyncingIndexPartition)),
        step(CommitWorkModel::Stop(WriteFailpoint::AfterDataIndex)),
        step_to(
            CommitWorkModel::Command(
                CommandModel::Locate { partition: copy.self_location.partition, block: write_block },
            ),
            TapePos { partition: copy.self_location.partition, startblock: write_block },
        ),
    ] + index_steps(copy.self_location, index_xml(copy), blocksize)
}

/// The coherency information of both partitions.
pub open spec fn coherency_steps(copy: IndexModel, data_index: IndexModel) -> Seq<CommitStepModel> {
    seq![
        step(CommitWorkModel::Report(WritePhase::UpdatingCoherency)),
        late_step(CommitWorkModel::Command(CommandModel::Flush)),
        late_step(CommitWorkModel::Stop(WriteFailpoint::AfterIndexes)),
        late_step(CommitWorkModel::Reference),
        late_step(
            CommitWorkModel::Coherency {
                partition: copy.self_location.partition,
                block: copy.self_location.startblock,
            },
        ),
        late_step(CommitWorkModel::Stop(WriteFailpoint::AfterFirstVci)),
        late_step(
            CommitWorkModel::Coherency {
                partition: data_index.self_location.partition,
                block: data_index.self_location.startblock,
            },
        ),
    ]
}

/// All steps of a commit.
pub open spec fn commit_script(
    data_index: IndexModel,
    copy: IndexModel,
    write_block: u64,
    blocksize: nat,
) -> Seq<CommitStepModel> {
    data_index_steps(data_index, blocksize) + index_copy_steps(copy, write_block, blocksize)
        + coherency_steps(copy, data_index)
}

// ---------------------------------------------------------------------------
// A commit
// ---------------------------------------------------------------------------

/// What a commit waits for.
#[derive(Debug, Clone, Copy, PartialEq, Eq, Structural)]
pub enum CommitWait {
    Done,
    Reference,
}

/// A commit that runs.
pub struct CommitRun {
    script: Vec<CommitStep>,
    progress: WriteProgress,
    options: WriteOptions,
    vcr: Vec<u8>,
    generation: u64,
    volume_uuid: String,
    wait: CommitWait,
    /// Where the tape stands once the current step is done.
    at: Option<TapePos>,
    coherency: bool,
}

/// The model of a commit: the steps that are left, and what is known.
#[verifier::ext_equal]
pub struct CommitState {
    pub rest: Seq<CommitStepModel>,
    pub progress: WriteProgress,
    pub options: WriteOptions,
    pub vcr: Seq<u8>,
    pub generation: u64,
    pub volume_uuid: Seq<char>,
    pub wait: CommitWait,
    pub at: Option<TapePos>,
    pub coherency: bool,
}

impl View for CommitRun {
    type V = CommitState;

    closed spec fn view(&self) -> CommitState {
        CommitState {
            rest: commit_models(self.script@),
            progress: self.progress,
            options: self.options,
            vcr: self.vcr@,
            generation: self.generation,
            volume_uuid: self.volume_uuid@,
            wait: self.wait,
            at: self.at,
            coherency: self.coherency,
        }
    }
}

/// What a commit does next.
#[derive(Debug, PartialEq, Eq)]
pub enum CommitAction {
    Command(TapeCommand),
    Finished,
    Failed(String),
}

pub enum CommitActionModel {
    Command(CommandModel),
    Finished,
    Failed(Seq<char>),
}

impl View for CommitAction {
    type V = CommitActionModel;

    open spec fn view(&self) -> CommitActionModel {
        match *self {
            CommitAction::Command(command) => CommitActionModel::Command(command@),
            CommitAction::Finished => CommitActionModel::Finished,
            CommitAction::Failed(message) => CommitActionModel::Failed(message@),
        }
    }
}

pub open spec fn event_models(list: Seq<WriteEvent>) -> Seq<EventModel> {
    list.map_values(|e: WriteEvent| e@)
}

/// A move of a commit: what is reported first, what is done then, and the state behind.
#[verifier::ext_equal]
pub struct CommitTurn {
    pub state: CommitState,
    pub events: Seq<EventModel>,
    pub action: CommitActionModel,
}

/// A failure in words.
pub open spec fn commit_failure(coherency: bool, message: Seq<char>) -> Seq<char> {
    if coherency {
        "两个 index 已写完，但更新 MAM VCI 失败："@ + message
    } else {
        message
    }
}

/// The coherency information of a partition, or why there is none.
pub open spec fn commit_vci(vcr: Seq<u8>, generation: u64, block: u64, uuid: Seq<char>) -> Result<
    Seq<u8>,
    Seq<char>,
> {
    if !is_uuid(uuid) {
        Err("volume UUID 格式无效"@)
    } else if block == 0 {
        Err("VCI index block 不能为 0"@)
    } else if !is_vcr(vcr) {
        Err("VCR 无效（为空、全零或全 FF）"@)
    } else {
        Ok(vci_bytes(committed_vci(vcr, generation, block, uuid)))
    }
}

/// The coherency information that a commit writes.
pub open spec fn committed_vci(vcr: Seq<u8>, generation: u64, block: u64, uuid: Seq<char>) -> VciModel {
    VciModel {
        vcr: eight_bytes(vcr),
        generation,
        block,
        volume_uuid: uuid,
        acsi_version: 1,
    }
}

/// The commit goes on: phases are reported and stops are passed up to the next command.
pub open spec fn commit_go(s: CommitState) -> CommitTurn
    decreases s.rest.len(),
{
    if s.rest.len() == 0 {
        CommitTurn { state: s, events: Seq::empty(), action: CommitActionModel::Finished }
    } else {
        let first = s.rest[0];
        let t = CommitState {
            rest: s.rest.drop_first(),
            wait: CommitWait::Done,
            at: first.at,
            coherency: first.coherency,
            ..s
        };
        match first.work {
            CommitWorkModel::Report(phase) => {
                let turn = commit_go(t);
                CommitTurn {
                    events: seq![progress_event(s.progress, phase, None)] + turn.events,
                    ..turn
                }
            },
            CommitWorkModel::Stop(point) => {
                let u = CommitState { options: options_at(s.options, point), ..t };
                match stop_spec(s.options, point) {
                    Some(message) => commit_fails(u, message),
                    None => commit_go(u),
                }
            },
            CommitWorkModel::Command(command) => CommitTurn {
                state: t,
                events: Seq::empty(),
                action: CommitActionModel::Command(command),
            },
            CommitWorkModel::Reference => CommitTurn {
                state: CommitState { wait: CommitWait::Reference, ..t },
                events: Seq::empty(),
                action: CommitActionModel::Command(
                    CommandModel::ReadMam { partition: 0, id: VOLUME_CHANGE_REFERENCE },
                ),
            },
            CommitWorkModel::Coherency { partition, block } => match commit_vci(
                s.vcr,
                s.generation,
                block,
                s.volume_uuid,
            ) {
                Ok(value) => CommitTurn {
                    state: t,
                    events: Seq::empty(),
                    action: CommitActionModel::Command(
                        CommandModel::WriteMam {
                            partition,
                            id: VOLUME_COHERENCY_INFORMATION,
                            format: MamAttributeFormat::Binary,
                            value,
                        },
                    ),
                },
                Err(message) => commit_fails(t, message),
            },
        }
    }
}

pub open spec fn commit_fails(s: CommitState, message: Seq<char>) -> CommitTurn {
    CommitTurn {
        state: s,
        events: Seq::empty(),
        action: CommitActionModel::Failed(commit_failure(s.coherency, message)),
    }
}

/// The state once the current step is done.
pub open spec fn step_done(s: CommitState) -> CommitState {
    match s.at {
        Some(at) => CommitState {
            progress: WriteProgress {
                partition: Some(at.partition),
                logical_block: Some(at.startblock),
                ..s.progress
            },
            ..s
        },
        None => s,
    }
}

/// The next move of a commit, given what came of its last command.
pub open spec fn commit_next(s: CommitState, reply: TapeReply) -> CommitTurn {
    match s.wait {
        CommitWait::Done => match failure(reply) {
            None => commit_go(step_done(s)),
            Some(message) => commit_fails(s, message),
        },
        CommitWait::Reference => match reply {
            TapeReply::Bytes(bytes) => commit_go(CommitState { vcr: bytes@, ..s }),
            _ => commit_fails(s, refusal(reply)),
        },
    }
}

fn push(script: &mut Vec<CommitStep>, work: CommitWork, at: Option<TapePos>, coherency: bool)
    ensures
        commit_models(final(script)@) == commit_models(old(script)@).push(
            CommitStepModel { work: work@, at, coherency },
        ),
{
    let ghost before = script@;
    let next = CommitStep { work, at, coherency };
    script.push(next);
    assert(commit_models(script@) =~= commit_models(before).push(next@));
}

fn push_records(script: &mut Vec<CommitStep>, text: &String, blocksize: usize)
    requires
        blocksize > 0,
    ensures
        commit_models(final(script)@) == commit_models(old(script)@) + record_steps(
            chunks_of(encode_utf8(text@), blocksize as nat),
        ),
{
    let bytes = text.as_str().as_bytes();
    let ghost all = encode_utf8(text@);
    let ghost start = commit_models(script@);
    let mut from: usize = 0;
    let ghost mut done = Seq::<Seq<u8>>::empty();
    proof {
        assert(all.subrange(0, all.len() as int) =~= all);
        assert(record_steps(done) =~= Seq::<CommitStepModel>::empty());
        assert(start + record_steps(done) =~= start);
        assert(done + chunks_of(all, blocksize as nat) =~= chunks_of(all, blocksize as nat));
    }
    while from < bytes.len()
        invariant
            blocksize > 0,
            bytes@ == all,
            from <= all.len(),
            chunks_of(all, blocksize as nat) == done + chunks_of(
                all.subrange(from as int, all.len() as int),
                blocksize as nat,
            ),
            commit_models(script@) == start + record_steps(done),
        decreases all.len() - from,
    {
        let to: usize = if bytes.len() - from <= blocksize {
            bytes.len()
        } else {
            from + blocksize
        };
        let piece = vstd::slice::slice_to_vec(vstd::slice::slice_subrange(bytes, from, to));
        proof {
            let rest = all.subrange(from as int, all.len() as int);
            let after = all.subrange(to as int, all.len() as int);
            assert(piece@ =~= all.subrange(from as int, to as int));
            if rest.len() <= blocksize {
                assert(piece@ =~= rest);
                assert(chunks_of(after, blocksize as nat) =~= Seq::<Seq<u8>>::empty());
            } else {
                assert(rest.subrange(0, blocksize as int) =~= piece@);
                assert(rest.subrange(blocksize as int, rest.len() as int) =~= after);
            }
            let more = done.push(piece@);
            assert(chunks_of(all, blocksize as nat) =~= more + chunks_of(
                after,
                blocksize as nat,
            ));
            assert(start + record_steps(more) =~= (start + record_steps(done)).push(
                step(CommitWorkModel::Command(CommandModel::WriteRecord { data: piece@ })),
            ));
            done = more;
        }
        push(script, CommitWork::Command(TapeCommand::WriteRecord { data: piece }), None, false);
        from = to;
    }
    proof {
        assert(all.subrange(from as int, all.len() as int) =~= Seq::<u8>::empty());
        assert(done =~= chunks_of(all, blocksize as nat));
    }
}

fn push_index(script: &mut Vec<CommitStep>, index: &Index, blocksize: usize)
    requires
        blocksize > 0,
    ensures
        commit_models(final(script)@) == commit_models(old(script)@) + index_steps(
            index.self_location,
            index_xml(index@),
            blocksize as nat,
        ),
{
    let ghost start = commit_models(script@);
    push(
        script,
        CommitWork::Command(TapeCommand::WriteFilemark),
        Some(index.self_location),
        false,
    );
    let text = index.to_xml();
    push_records(script, &text, blocksize);
    push(script, CommitWork::Command(TapeCommand::WriteFilemark), None, false);
    assert(commit_models(script@) =~= start + index_steps(
        index.self_location,
        index_xml(index@),
        blocksize as nat,
    ));
}

/// The places that a commit writes to.
#[derive(Debug, Clone, Copy, PartialEq, Eq, Structural)]
pub struct CommitPlaces {
    pub data_partition: u8,
    pub index_partition: u8,
    /// Where the data ends.
    pub data_end: u64,
    /// Where the copy in the index partition begins, with its file mark.
    pub index_write_block: u64,
    /// The index of the generation before.
    pub last: TapePos,
}

/// Where the index of the data partition goes.
pub open spec fn data_place(places: CommitPlaces) -> TapePos {
    TapePos {
        partition: places.data_partition,
        startblock: saturating(places.data_end as int, 1),
    }
}

/// Where its copy goes.
pub open spec fn copy_place(places: CommitPlaces) -> TapePos {
    TapePos {
        partition: places.index_partition,
        startblock: saturating(places.index_write_block as int, 1),
    }
}

/// A commit at its start.
pub open spec fn commit_start(
    data_index: IndexModel,
    copy: IndexModel,
    write_block: u64,
    blocksize: nat,
    progress: WriteProgress,
    options: WriteOptions,
) -> CommitState {
    CommitState {
        rest: commit_script(data_index, copy, write_block, blocksize),
        progress,
        options,
        vcr: Seq::empty(),
        generation: copy.generation,
        volume_uuid: copy.volume_uuid,
        wait: CommitWait::Done,
        at: None,
        coherency: false,
    }
}

impl CommitRun {
    /// Begins a commit of an index whose data has been written; gives the index as its
    /// copy in the index partition holds it.
    pub fn new(
        index: Index,
        now: &str,
        highest_uid: u64,
        places: CommitPlaces,
        blocksize: usize,
        progress: WriteProgress,
        options: WriteOptions,
    ) -> (result: (CommitRun, Index))
        requires
            blocksize > 0,
        ensures
            ({
                let data_index = data_index_of(
                    index@,
                    now@,
                    highest_uid,
                    data_place(places),
                    places.last,
                );
                let copy = index_copy_of(data_index, copy_place(places));
                &&& result.1@ == copy
                &&& result.0@ == commit_start(
                    data_index,
                    copy,
                    places.index_write_block,
                    blocksize as nat,
                    progress,
                    options,
                )
            }),
    {
        let mut index = index;
        let ghost given = index@;
        let data_at = TapePos {
            partition: places.data_partition,
            startblock: places.data_end.saturating_add(1),
        };
        let copy_at = TapePos {
            partition: places.index_partition,
            startblock: places.index_write_block.saturating_add(1),
        };
        index.generation = index.generation.saturating_add(1);
        index.highest_file_uid = Some(highest_uid);
        index.update_time = now.to_owned();
        index.self_location = data_at;
        index.previous_location = Some(places.last);
        let ghost data_index = data_index_of(
            given,
            now@,
            highest_uid,
            data_place(places),
            places.last,
        );
        assert(index@ =~= data_index);
        let mut script: Vec<CommitStep> = Vec::new();
        assert(commit_models(script@) =~= Seq::<CommitStepModel>::empty());
        push(&mut script, CommitWork::Report(WritePhase::FinalizingDataIndex), None, false);
        push_index(&mut script, &index, blocksize);
        assert(commit_models(script@) =~= data_index_steps(data_index, blocksize as nat));
        index.self_location = copy_at;
        index.previous_location = Some(data_at);
        let ghost copy = index_copy_of(data_index, copy_place(places));
        assert(index@ =~= copy);
        let ghost first = commit_models(script@);
        push(&mut script, CommitWork::Report(WritePhase::SyncingIndexPartition), None, false);
        push(&mut script, CommitWork::Stop(WriteFailpoint::AfterDataIndex), None, false);
        push(
            &mut script,
            CommitWork::Command(
                TapeCommand::Locate {
                    partition: places.index_partition,
                    block: places.index_write_block,
                },
            ),
            Some(
                TapePos {
                    partition: places.index_partition,
                    startblock: places.index_write_block,
                },
            ),
            false,
        );
        push_index(&mut script, &index, blocksize);
        assert(commit_models(script@) =~= first + index_copy_steps(
            copy,
            places.index_write_block,
            blocksize as nat,
        ));
        let ghost second = commit_models(script@);
        push(&mut script, CommitWork::Report(WritePhase::UpdatingCoherency), None, false);
        push(&mut script, CommitWork::Command(TapeCommand::Flush), None, true);
        push(&mut script, CommitWork::Stop(WriteFailpoint::AfterIndexes), None, true);
        push(&mut script, CommitWork::Reference, None, true);
        push(
            &mut script,
            CommitWork::Coherency {
                partition: copy_at.partition,
                block: copy_at.startblock,
            },
            None,
            true,
        );
        push(&mut script, CommitWork::Stop(WriteFailpoint::AfterFirstVci), None, true);
        push(
            &mut script,
            CommitWork::Coherency {
                partition: data_at.partition,
                block: data_at.startblock,
            },
            None,
            true,
        );
        assert(commit_models(script@) =~= second + coherency_steps(copy, data_index));
        assert(commit_models(script@) =~= commit_script(
            data_index,
            copy,
            places.index_write_block,
            blocksize as nat,
        ));
        let run = CommitRun {
            script,
            progress,
            options,
            vcr: Vec::new(),
            generation: index.generation,
            volume_uuid: index.volume_uuid.clone(),
            wait: CommitWait::Done,
            at: None,
            coherency: false,
        };
        assert(run@.vcr =~= Seq::<u8>::empty());
        (run, index)
    }

    /// Whether the write has been asked to stop.
    pub fn set_options(&mut self, options: WriteOptions)
        ensures
            final(self)@ == (CommitState { options, ..old(self)@ }),
    {
        self.options = options;
    }

    pub fn progress(&self) -> (progress: WriteProgress)
        ensures
            progress == self@.progress,
    {
        self.progress
    }

    pub fn options(&self) -> (options: WriteOptions)
        ensures
            options == self@.options,
    {
        self.options.handed_on()
    }

    fn fails(&self, message: String) -> (action: CommitAction)
        ensures
            action@ == commit_fails(self@, message@).action,
    {
        if self.coherency {
            CommitAction::Failed(
                cat2("两个 index 已写完，但更新 MAM VCI 失败：", message.as_str()),
            )
        } else {
            CommitAction::Failed(message)
        }
    }

    /// Goes on up to the next command; also the first move.
    pub fn go(&mut self, events: &mut Vec<WriteEvent>) -> (action: CommitAction)
        ensures
            ({
                let turn = commit_go(old(self)@);
                &&& final(self)@ == turn.state
                &&& action@ == turn.action
                &&& event_models(final(events)@) == event_models(old(events)@) + turn.events
            }),
        decreases old(self)@.rest.len(),
    {
        let ghost s = self@;
        let ghost given = event_models(events@);
        if self.script.len() == 0 {
            assert(given + Seq::<EventModel>::empty() =~= given);
            return CommitAction::Finished;
        }
        let ghost list = self.script@;
        let first = self.script.remove(0);
        proof {
            assert(commit_models(list)[0] == first@);
            assert(commit_models(self.script@) =~= commit_models(list).drop_first());
        }
        self.wait = CommitWait::Done;
        self.at = first.at;
        self.coherency = first.coherency;
        assert(given + Seq::<EventModel>::empty() =~= given);
        match first.work {
            CommitWork::Report(phase) => {
                let event = self.progress.event(phase, None);
                let ghost before = events@;
                events.push(event);
                assert(event_models(events@) =~= event_models(before).push(event@));
                let ghost t = self@;
                let action = self.go(events);
                proof {
                    let turn = commit_go(t);
                    assert(given.push(event@) + turn.events =~= given + (seq![event@]
                        + turn.events));
                }
                action
            },
            CommitWork::Stop(point) => {
                match check_write_stop(&mut self.options, point) {
                    Ok(_) => self.go(events),
                    Err(message) => self.fails(message),
                }
            },
            CommitWork::Command(command) => CommitAction::Command(command),
            CommitWork::Reference => {
                self.wait = CommitWait::Reference;
                CommitAction::Command(
                    TapeCommand::ReadMam { partition: 0, id: VOLUME_CHANGE_REFERENCE },
                )
            },
            CommitWork::Coherency { partition, block } => {
                match VolumeCoherencyInformation::new(
                    self.vcr.as_slice(),
                    self.generation,
                    block,
                    self.volume_uuid.as_str(),
                ) {
                    Err(message) => self.fails(message),
                    Ok(vci) => match vci.to_bytes() {
                        Err(message) => self.fails(message),
                        Ok(value) => CommitAction::Command(
                            TapeCommand::WriteMam {
                                partition,
                                id: VOLUME_COHERENCY_INFORMATION,
                                format: MamAttributeFormat::Binary,
                                value,
                            },
                        ),
                    },
                }
            },
        }
    }

    /// The next move, given what came of the last command.
    pub fn next(&mut self, reply: TapeReply, events: &mut Vec<WriteEvent>) -> (action: CommitAction)
        ensures
            ({
                let turn = commit_next(old(self)@, reply);
                &&& final(self)@ == turn.state
                &&& action@ == turn.action
                &&& event_models(final(events)@) == event_models(old(events)@) + turn.events
            }),
    {
        assert(event_models(events@) + Seq::<EventModel>::empty() =~= event_models(events@));
        match self.wait {
            CommitWait::Done => match failure_of(reply) {
                None => {
                    match self.at {
                        Some(at) => {
                            self.progress.partition = Some(at.partition);
                            self.progress.logical_block = Some(at.startblock);
                        },
                        None => {},
                    }
                    self.go(events)
                },
                Some(message) => self.fails(message),
            },
            CommitWait::Reference => match reply {
                TapeReply::Bytes(bytes) => {
                    self.vcr = bytes;
                    self.go(events)
                },
                other => {
                    let message = refusal_of(other);
                    self.fails(message)
                },
            },
        }
    }
}

// ---------------------------------------------------------------------------
// Laws
// ---------------------------------------------------------------------------

/// Both copies of the index that a commit writes belong to the same generation of the
/// same volume, hold the same tree and tell the same highest number; the copy in the index
/// partition points back to the one in the data partition, which points back to the
/// generation before.
pub proof fn committed_copies_agree(
    index: IndexModel,
    now: Seq<char>,
    highest_uid: u64,
    places: CommitPlaces,
)
    ensures
        ({
            let data_index = data_index_of(
                index,
                now,
                highest_uid,
                data_place(places),
                places.last,
            );
            let copy = index_copy_of(data_index, copy_place(places));
            &&& copy.generation == data_index.generation
            &&& copy.volume_uuid == data_index.volume_uuid
            &&& copy.volume_uuid == index.volume_uuid
            &&& copy.root == data_index.root
            &&& copy.root == index.root
            &&& copy.highest_file_uid == Some(highest_uid)
            &&& data_index.highest_file_uid == Some(highest_uid)
            &&& copy.self_location.partition == places.index_partition
            &&& data_index.self_location.partition == places.data_partition
            &&& places.data_end < u64::MAX ==> data_index.self_location.startblock
                == places.data_end + 1
            &&& places.index_write_block < u64::MAX ==> copy.self_location.startblock
                == places.index_write_block + 1
            &&& copy.update_time == now
            &&& data_index.update_time == now
            &&& copy.previous_location == Some(data_index.self_location)
            &&& data_index.previous_location == Some(places.last)
            &&& index.generation < u64::MAX ==> copy.generation == index.generation + 1
        }),
{
}

/// Both copies of the index that a commit writes are read back as they were written, with
/// the counts of the tree: from the events of their documents, and from whatever events a
/// reader gives of the texts that are written.
pub proof fn committed_index_reads_back(
    index: IndexModel,
    now: Seq<char>,
    highest_uid: u64,
    places: CommitPlaces,
)
    requires
        index_writable(index),
        solid(now),
        places.data_partition <= 1,
        places.index_partition <= 1,
        places.last.partition <= 1,
    ensures
        ({
            let data_index = data_index_of(
                index,
                now,
                highest_uid,
                data_place(places),
                places.last,
            );
            let copy = index_copy_of(data_index, copy_place(places));
            &&& forall|events: Seq<XmlEvent>| #[trigger]
                read_plainly(index_xml(data_index), events) ==> index_from(events) == Ok::<
                    IndexModel,
                    IndexFault,
                >(recounted(data_index))
            &&& forall|events: Seq<XmlEvent>| #[trigger]
                read_plainly(index_xml(copy), events) ==> index_from(events) == Ok::<
                    IndexModel,
                    IndexFault,
                >(recounted(copy))
            &&& index_from(index_events(data_index).push(XmlEvent::Eof)) == Ok::<
                IndexModel,
                IndexFault,
            >(recounted(data_index))
            &&& index_from(index_events(copy).push(XmlEvent::Eof)) == Ok::<IndexModel, IndexFault>(
                recounted(copy),
            )
        }),
{
    let data_index = data_index_of(index, now, highest_uid, data_place(places), places.last);
    stored_index_reads_back(data_index);
    stored_index_reads_back(index_copy_of(data_index, copy_place(places)));
}

/// The records of an index, put together, are its document.
pub proof fn chunks_join(bytes: Seq<u8>, size: nat)
    requires
        size > 0,
    ensures
        chunks_of(bytes, size).flatten() == bytes,
    decreases bytes.len(),
{
    if bytes.len() == 0 {
        assert(chunks_of(bytes, size).flatten() =~= bytes);
    } else if bytes.len() <= size {
        let one = seq![bytes];
        assert(one.drop_first() =~= Seq::<Seq<u8>>::empty());
        assert(one.drop_first().flatten() =~= Seq::<u8>::empty());
        assert(one.flatten() =~= bytes);
    } else {
        let rest = bytes.subrange(size as int, bytes.len() as int);
        chunks_join(rest, size);
        let all = chunks_of(bytes, size);
        assert(all.drop_first() =~= chunks_of(rest, size));
        assert(all.first() + rest =~= bytes);
    }
}

/// What a commit leaves passes the check that comes before the next write: the coherency
/// information of both partitions belongs to the copy of the index in the index
/// partition.
pub proof fn committed_volume_passes_check(
    label: LabelModel,
    index: IndexModel,
    now: Seq<char>,
    highest_uid: u64,
    places: CommitPlaces,
    vcr: Seq<u8>,
    first: Result<Seq<u8>, Seq<char>>,
    second: Result<Seq<u8>, Seq<char>>,
)
    requires
        label.data_partition == places.data_partition,
        label.index_partition == places.index_partition,
        is_uuid(index.volume_uuid),
        is_vcr(vcr),
        ({
            let copy = index_copy_of(
                data_index_of(index, now, highest_uid, data_place(places), places.last),
                copy_place(places),
            );
            &&& commit_vci(vcr, copy.generation, copy_place(places).startblock, copy.volume_uuid)
                == first
            &&& commit_vci(vcr, copy.generation, data_place(places).startblock, copy.volume_uuid)
                == second
        }),
    ensures
        ({
            let copy = index_copy_of(
                data_index_of(index, now, highest_uid, data_place(places), places.last),
                copy_place(places),
            );
            write_vci_fault(
                label,
                copy,
                vci_read(first, label.index_partition),
                vci_read(second, label.data_partition),
            ) is None
        }),
{
    let copy = index_copy_of(
        data_index_of(index, now, highest_uid, data_place(places), places.last),
        copy_place(places),
    );
    let a = committed_vci(vcr, copy.generation, copy_place(places).startblock, copy.volume_uuid);
    let b = committed_vci(vcr, copy.generation, data_place(places).startblock, copy.volume_uuid);
    crate::ltfs::mam::vci_round_trip(a);
    crate::ltfs::mam::vci_round_trip(b);
}

/// No coherency information is written, and the index partition is not touched, before
/// the index of the data partition is closed by its file mark; and coherency information
/// is written only behind both indexes.
pub proof fn commit_keeps_its_order(
    data_index: IndexModel,
    copy: IndexModel,
    write_block: u64,
    blocksize: nat,
    i: int,
)
    requires
        0 <= i < commit_script(data_index, copy, write_block, blocksize).len(),
    ensures
        ({
            let script = commit_script(data_index, copy, write_block, blocksize);
            let d = data_index_steps(data_index, blocksize).len();
            let c = d + index_copy_steps(copy, write_block, blocksize).len();
            &&& script[i].work is Coherency ==> i >= c
            &&& (script[i].work matches CommitWorkModel::Command(CommandModel::Locate { .. }))
                ==> i >= d
            &&& script[d - 1].work == CommitWorkModel::Command(CommandModel::WriteFilemark)
            &&& script[c - 1].work == CommitWorkModel::Command(CommandModel::WriteFilemark)
        }),
{
    let script = commit_script(data_index, copy, write_block, blocksize);
    let one = data_index_steps(data_index, blocksize);
    let two = index_copy_steps(copy, write_block, blocksize);
    let d = one.len();
    let c = d + two.len();
    assert(script[d - 1] == one[d - 1]);
    assert(script[c - 1] == two[two.len() - 1]);
    if i < d {
        assert(script[i] == one[i]);
    } else if i < c {
        assert(script[i] == two[i - d]);
    }
}

} // verus!
