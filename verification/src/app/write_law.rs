//! A write as a whole: what a run that ends well has written, given that it is handed what
//! the reader of the source hands on.
use vstd::prelude::*;

use super::append::{AppendState, HashState};
use super::commit::{
    commit_go, commit_next, copy_place, data_index_of, data_place, index_copy_of, step_done,
    CommitState, CommitTurn, CommitWait, CommitWorkModel,
};
use super::data::{file_begun, file_ended, record_written, written_file, DataState, HashModel};
use super::flow::{misfit, TapeReply};
use super::plan::{source_text, PlanState, PlannedModel};
use super::plan_law::{
    files_found, files_kept, plan_counts_its_bytes, plan_files_are_found,
    plan_names_no_target_twice, plan_numbers_its_entries, plan_targets_were_free, planned_bytes,
    targets_differ, targets_free,
};
use super::probe::saturating;
use super::reader::{
    file_next, reader_next, reader_start, MessageModel, ReaderActionModel, ReaderReply, ReaderState,
};
use super::round_trip::{ended_file_is_indexed, ended_file_keeps_other_files, ended_file_keeps_uids};
use super::write::{
    anywhere_reply, append_moves, append_reply, asked, channels_reply, coherency_checked,
    commit_done, commit_moves, commit_reply, data_done, fails_with, first_commit_state,
    first_progress, first_turn, first_vci_reply, goes_on, health_reply, idle_reply, inspect_reply,
    joined_reply, message_received, next_turn, paced_reply, performance_events, pipeline_reply,
    places_of, receive_reply, record_paced, record_reply, source_known, source_plan, source_reply,
    vci_bytes_of, verify_from, verify_moves, verify_reply, writable_volume, write_done,
    write_enabled, write_next, write_refusal, CommittedModel, ContextModel, DataRunModel,
    PlannedWriteModel, StageModel, SummaryModel, WritableModel, WriteActionModel, WriteFacts,
    WriteReply, WriteTurn,
};
use super::write_state::{
    options_at, progress_event, EventModel, WriteFailpoint, WriteOptions, WritePhase,
};
use crate::hash::sha256_text;
use crate::ltfs::index::{file_at, path_parts, DirModel, FileModel, TapePos};
use crate::ltfs::uid_law::{added_uids_stay_sound, tree_uids, uids_added, uids_sound};

verus! {

// ---------------------------------------------------------------------------
// What the reader hands on
// ---------------------------------------------------------------------------

/// The reader once it has been told so much, and what it does next; once it has finished
/// or failed it does nothing more.
pub open spec fn reader_run(
    files: Seq<PlannedModel>,
    block_capacity: nat,
    cancelled: bool,
    told: Seq<(ReaderReply, bool)>,
) -> (ReaderState, ReaderActionModel)
    decreases told.len(),
{
    if told.len() == 0 {
        file_next(reader_start(files, block_capacity), cancelled)
    } else {
        let (s, action) = reader_run(files, block_capacity, cancelled, told.drop_last());
        if reader_is_over(action) {
            (s, action)
        } else {
            reader_next(s, told.last().0, told.last().1)
        }
    }
}

/// Nothing follows.
pub open spec fn reader_is_over(action: ReaderActionModel) -> bool {
    action is Finished || action is Failed
}

/// What has been handed on, with what an action hands on: a message, or that the reader
/// has failed.
pub open spec fn with_handed(messages: Seq<MessageModel>, action: ReaderActionModel) -> Seq<
    MessageModel,
> {
    match action {
        ReaderActionModel::Send(message) => messages.push(message),
        ReaderActionModel::Failed(message) => messages.push(MessageModel::Error(message)),
        _ => messages,
    }
}

/// All that the reader hands on.
pub open spec fn handed_on(
    files: Seq<PlannedModel>,
    block_capacity: nat,
    cancelled: bool,
    told: Seq<(ReaderReply, bool)>,
) -> Seq<MessageModel>
    decreases told.len(),
{
    let action = reader_run(files, block_capacity, cancelled, told).1;
    if told.len() == 0 {
        with_handed(Seq::empty(), action)
    } else {
        let before = handed_on(files, block_capacity, cancelled, told.drop_last());
        if reader_is_over(reader_run(files, block_capacity, cancelled, told.drop_last()).1) {
            before
        } else {
            with_handed(before, action)
        }
    }
}

/// How many files have ended.
pub open spec fn files_ended(messages: Seq<MessageModel>) -> nat
    decreases messages.len(),
{
    if messages.len() == 0 {
        0
    } else {
        files_ended(messages.drop_last()) + if messages.last() is FileEnd {
            1nat
        } else {
            0nat
        }
    }
}

/// The bytes that were handed on of the file at `k`: those behind which `k` files had ended.
pub open spec fn bytes_handed(messages: Seq<MessageModel>, k: nat) -> Seq<u8>
    decreases messages.len(),
{
    if messages.len() == 0 {
        Seq::empty()
    } else {
        let before = bytes_handed(messages.drop_last(), k);
        match messages.last() {
            MessageModel::Data(data) => if files_ended(messages.drop_last()) == k {
                before + data
            } else {
                before
            },
            _ => before,
        }
    }
}

/// How many records have been handed on.
pub open spec fn records_handed(messages: Seq<MessageModel>) -> nat
    decreases messages.len(),
{
    if messages.len() == 0 {
        0
    } else {
        records_handed(messages.drop_last()) + if messages.last() is Data {
            1nat
        } else {
            0nat
        }
    }
}

/// How many records were handed on before the file at `k`: until `k` files had ended.
pub open spec fn records_before(messages: Seq<MessageModel>, k: nat) -> nat
    decreases messages.len(),
{
    if messages.len() == 0 {
        0
    } else {
        records_before(messages.drop_last(), k) + if messages.last() is Data && files_ended(
            messages.drop_last(),
        ) < k {
            1nat
        } else {
            0nat
        }
    }
}

/// A message, if it announces a file, announces the one at `k`.
pub open spec fn announces(files: Seq<PlannedModel>, k: nat, message: MessageModel) -> bool {
    match message {
        MessageModel::FileStart { target, description, expected_size } => {
            &&& k < files.len()
            &&& target == files[k as int].target
            &&& description == source_text(files[k as int].source)
            &&& expected_size == files[k as int].size
        },
        _ => true,
    }
}

/// The files are announced in the order of the plan, each with its target and its size.
pub open spec fn announced(files: Seq<PlannedModel>, messages: Seq<MessageModel>) -> bool
    decreases messages.len(),
{
    messages.len() == 0 || (announced(files, messages.drop_last()) && announces(
        files,
        files_ended(messages.drop_last()),
        messages.last(),
    ))
}

proof fn lemma_reader_stands(
    files: Seq<PlannedModel>,
    block_capacity: nat,
    cancelled: bool,
    told: Seq<(ReaderReply, bool)>,
)
    ensures
        ({
            let (s, action) = reader_run(files, block_capacity, cancelled, told);
            let messages = handed_on(files, block_capacity, cancelled, told);
            &&& announced(files, messages)
            &&& !reader_is_over(action) ==> {
                &&& s.files == files
                &&& s.at < files.len()
                &&& files_ended(messages) == if s.stage is Closing {
                    s.at + 1
                } else {
                    s.at
                }
            }
        }),
    decreases told.len(),
{
    let action = reader_run(files, block_capacity, cancelled, told).1;
    let before = if told.len() == 0 {
        Seq::<MessageModel>::empty()
    } else {
        handed_on(files, block_capacity, cancelled, told.drop_last())
    };
    if told.len() == 0 {
        assert(announced(files, before) && files_ended(before) == 0);
    } else {
        lemma_reader_stands(files, block_capacity, cancelled, told.drop_last());
    }
    match action {
        ReaderActionModel::Send(message) => {
            lemma_pushed(files, before, message);
        },
        ReaderActionModel::Failed(message) => {
            lemma_pushed(files, before, MessageModel::Error(message));
        },
        _ => {},
    }
}

/// A reader announces the files of its plan in their order, each with its target and its
/// size, and the one that follows only once the one before has ended.
pub proof fn reader_announces_the_plan(
    files: Seq<PlannedModel>,
    block_capacity: nat,
    cancelled: bool,
    told: Seq<(ReaderReply, bool)>,
)
    ensures
        announced(files, handed_on(files, block_capacity, cancelled, told)),
{
    lemma_reader_stands(files, block_capacity, cancelled, told);
}

proof fn lemma_announced_so_far(
    files: Seq<PlannedModel>,
    messages: Seq<MessageModel>,
    all: Seq<MessageModel>,
)
    requires
        announced(files, all),
        messages.is_prefix_of(all),
    ensures
        announced(files, messages),
    decreases all.len() - messages.len(),
{
    if messages.len() == all.len() {
        assert(messages =~= all);
    } else {
        let longer = all.subrange(0, messages.len() as int + 1);
        lemma_announced_so_far(files, longer, all);
        assert(longer.drop_last() =~= messages);
    }
}

proof fn lemma_pushed(files: Seq<PlannedModel>, messages: Seq<MessageModel>, message: MessageModel)
    ensures
        messages.push(message).drop_last() == messages,
        files_ended(messages.push(message)) == files_ended(messages) + if message is FileEnd {
            1nat
        } else {
            0nat
        },
        announced(files, messages.push(message)) == (announced(files, messages) && announces(
            files,
            files_ended(messages),
            message,
        )),
        !(message is Data) ==> forall|k: nat|
            #[trigger] bytes_handed(messages.push(message), k) == bytes_handed(messages, k),
        records_handed(messages.push(message)) == records_handed(messages) + if message is Data {
            1nat
        } else {
            0nat
        },
        forall|k: nat| #[trigger]
            records_before(messages.push(message), k) == records_before(messages, k)
                + if message is Data && files_ended(messages) < k {
                1nat
            } else {
                0nat
            },
{
    assert(messages.push(message).drop_last() =~= messages);
}

proof fn lemma_all_before(messages: Seq<MessageModel>, k: nat)
    requires
        k > files_ended(messages),
    ensures
        records_before(messages, k) == records_handed(messages),
    decreases messages.len(),
{
    if messages.len() > 0 {
        lemma_all_before(messages.drop_last(), k);
    }
}

pub proof fn lemma_nothing_handed_yet(messages: Seq<MessageModel>, k: nat)
    requires
        k > files_ended(messages),
    ensures
        bytes_handed(messages, k) == Seq::<u8>::empty(),
    decreases messages.len(),
{
    if messages.len() > 0 {
        lemma_nothing_handed_yet(messages.drop_last(), k);
    }
}

// ---------------------------------------------------------------------------
// A run
// ---------------------------------------------------------------------------

/// The write once it has been told so much: what came of its actions, one after the other,
/// and whether it had been asked to stop.
pub open spec fn write_run(
    path: Seq<char>,
    options: WriteOptions,
    told: Seq<(WriteReply, bool)>,
) -> WriteTurn
    decreases told.len(),
{
    if told.len() == 0 {
        first_turn(path, options)
    } else {
        let before = write_run(path, options, told.drop_last());
        next_turn(before.context, before.stage, told.last().0, told.last().1)
    }
}

/// The messages that a write has received.
pub open spec fn received(
    path: Seq<char>,
    options: WriteOptions,
    told: Seq<(WriteReply, bool)>,
) -> Seq<MessageModel>
    decreases told.len(),
{
    if told.len() == 0 {
        Seq::empty()
    } else {
        let before = received(path, options, told.drop_last());
        match told.last().0 {
            WriteReply::Message(Some(message)) => if write_run(
                path,
                options,
                told.drop_last(),
            ).stage is Receive {
                before.push(message@)
            } else {
                before
            },
            _ => before,
        }
    }
}

/// The volume that is written to: the first that a write is told.
pub open spec fn volume_told(told: Seq<(WriteReply, bool)>) -> Option<WritableModel> {
    if told.len() == 0 {
        None
    } else {
        match told[0].0 {
            WriteReply::Volume(volume) => match writable_volume(volume@) {
                Ok(v) => Some(v),
                Err(_) => None,
            },
            _ => None,
        }
    }
}

/// The plan for the source that a write is told, once the coherency information of both
/// partitions is known.
pub open spec fn plan_told(path: Seq<char>, told: Seq<(WriteReply, bool)>) -> Option<PlanState> {
    if told.len() <= 3 {
        None
    } else {
        match (volume_told(told), told[3].0) {
            (Some(v), WriteReply::Source { source, now }) => match source_plan(
                v.index,
                source,
                path,
                now@,
            ) {
                Ok(plan) => Some(plan),
                Err(_) => None,
            },
            _ => None,
        }
    }
}

/// The digests of the first `n` files, each under its target, of the bytes that were
/// handed on; as many were as had been planned.
pub open spec fn digests_of(
    files: Seq<PlannedModel>,
    messages: Seq<MessageModel>,
    n: nat,
    hashes: Seq<HashModel>,
) -> bool {
    &&& hashes.len() == n
    &&& forall|i: int|
        0 <= i < n ==> (#[trigger] hashes[i]) == (HashModel {
            path: files[i].target,
            sha256: sha256_text(bytes_handed(messages, i as nat)),
        }) && files[i].size == saturating(0, bytes_handed(messages, i as nat).len() as int)
}

/// The entry of a file that has been written: so many bytes with that digest, in one extent.
pub open spec fn written_as(f: FileModel, partition: u8, size: u64, sha256: Seq<char>) -> bool {
    exists|g: FileModel, start_block: u64|
        f == #[trigger] written_file(g, partition, start_block, size, sha256)
}

/// The entry of the file at `k` of a plan once it has been written behind the block at
/// which the data begins: the planned entry, with the bytes that were handed on of it.
pub open spec fn entry_written(
    plan: PlanState,
    messages: Seq<MessageModel>,
    k: nat,
    partition: u8,
    append: u64,
) -> FileModel {
    written_file(
        file_at(plan.root, plan.files[k as int].target)->0,
        partition,
        saturating(append as int, records_before(messages, k) as int),
        plan.files[k as int].size,
        sha256_text(bytes_handed(messages, k)),
    )
}

/// The first `n` files are found in an index under their targets, with the digests of the
/// bytes that were handed on, where the records were written; the others are found as they
/// were planned.
pub open spec fn indexed(
    plan: PlanState,
    messages: Seq<MessageModel>,
    n: nat,
    root: DirModel,
    partition: u8,
    append: u64,
) -> bool {
    forall|i: int|
        0 <= i < plan.files.len() ==> file_at(root, (#[trigger] plan.files[i]).target) == if i
            < n {
            Some(entry_written(plan, messages, i as nat, partition, append))
        } else {
            file_at(plan.root, plan.files[i].target)
        }
}

/// The files that have ended are written, and of the next one what was handed on.
pub open spec fn counted(
    plan: PlanState,
    messages: Seq<MessageModel>,
    w: DataState,
    append: u64,
) -> bool {
    let n = files_ended(messages);
    let done = planned_bytes(plan.files.take(n as int)) as int;
    let part = bytes_handed(messages, n);
    &&& n <= plan.files.len()
    &&& w.progress.files_total == plan.files.len()
    &&& w.progress.files_completed == n
    &&& digests_of(plan.files, messages, n, w.hashes)
    &&& indexed(plan, messages, n, w.index.root, w.data_partition, append)
    &&& w.position == saturating(append as int, records_handed(messages) as int)
    &&& match w.active {
        Some(a) => {
            &&& n < plan.files.len()
            &&& a.target == plan.files[n as int].target
            &&& a.expected_size == plan.files[n as int].size
            &&& a.bytes == part
            &&& a.start_block == saturating(append as int, records_before(messages, n) as int)
            &&& a.bytes_written == saturating(0, part.len() as int)
            &&& w.progress.bytes_written == saturating(done, part.len() as int)
        },
        None => {
            &&& part == Seq::<u8>::empty()
            &&& records_before(messages, n) == records_handed(messages)
            &&& w.progress.bytes_written == saturating(done, 0)
        },
    }
}

/// The plan can be counted, and the messages follow it.
pub open spec fn follows(plan: PlanState, messages: Seq<MessageModel>) -> bool {
    plan.files.len() <= usize::MAX && announced(plan.files, messages)
}

/// What is fixed is what was planned for the volume.
pub open spec fn facts_hold(
    path: Seq<char>,
    told: Seq<(WriteReply, bool)>,
    generation: u64,
    facts: WriteFacts,
) -> bool {
    match (volume_told(told), plan_told(path, told)) {
        (Some(v), Some(plan)) => {
            &&& generation == v.index.generation
            &&& facts.highest_uid == plan.highest_uid
            &&& facts.directories == plan.directories
            &&& facts.data_partition == v.label.data_partition
            &&& facts.index_partition == v.label.index_partition
            &&& v.index_write_block == Some(facts.index_write_block)
            &&& files_found(plan.root, plan.files)
            &&& files_kept(v.index.root, plan.root)
            &&& targets_free(v.index.root, plan.files)
            &&& plan.total_bytes == planned_bytes(plan.files)
            &&& targets_differ(plan.files)
        },
        _ => false,
    }
}

/// A write that is planned holds the plan.
pub open spec fn holds_plan(
    path: Seq<char>,
    told: Seq<(WriteReply, bool)>,
    p: PlannedWriteModel,
) -> bool {
    &&& facts_hold(path, told, p.index.generation, p.facts)
    &&& p.index.root == plan_told(path, told)->0.root
    &&& p.files == plan_told(path, told)->0.files
    &&& p.progress == first_progress(plan_told(path, told)->0)
}

/// A write that writes data has counted what it received.
pub open spec fn holds_data(
    path: Seq<char>,
    told: Seq<(WriteReply, bool)>,
    messages: Seq<MessageModel>,
    run: DataRunModel,
) -> bool {
    let plan = plan_told(path, told)->0;
    &&& facts_hold(path, told, run.writer.index.generation, run.facts)
    &&& run.writer.data_partition == run.facts.data_partition
    &&& tree_uids(run.writer.index.root) == tree_uids(plan.root)
    &&& follows(plan, messages) ==> counted(plan, messages, run.writer, run.place.data_append)
        && files_kept(volume_told(told)->0.index.root, run.writer.index.root)
}

/// All that was planned has been written.
pub open spec fn all_planned(
    plan: PlanState,
    messages: Seq<MessageModel>,
    hashes: Seq<HashModel>,
    files: usize,
    bytes: u64,
) -> bool {
    &&& files == plan.files.len()
    &&& bytes == planned_bytes(plan.files)
    &&& digests_of(plan.files, messages, plan.files.len(), hashes)
}

/// A write that has committed holds all that was planned, in the next generation.
pub open spec fn holds_all(
    path: Seq<char>,
    told: Seq<(WriteReply, bool)>,
    messages: Seq<MessageModel>,
    done: CommittedModel,
) -> bool {
    let plan = plan_told(path, told)->0;
    let v = volume_told(told)->0;
    &&& facts_hold(path, told, v.index.generation, done.facts)
    &&& done.index.generation == saturating(v.index.generation as int, 1)
    &&& done.index.highest_file_uid == Some(plan.highest_uid)
    &&& tree_uids(done.index.root) == tree_uids(plan.root)
    &&& done.index.self_location == (TapePos {
        partition: v.label.index_partition,
        startblock: saturating(v.index_write_block->0 as int, 1),
    })
    &&& follows(plan, messages) ==> {
        &&& all_planned(
            plan,
            messages,
            done.hashes,
            done.progress.files_total,
            done.progress.bytes_written,
        )
        &&& indexed(
            plan,
            messages,
            plan.files.len(),
            done.index.root,
            v.label.data_partition,
            done.place.data_append,
        )
        &&& files_kept(v.index.root, done.index.root)
        &&& done.index.previous_location == Some(
            TapePos {
                partition: v.label.data_partition,
                startblock: saturating(
                    saturating(
                        done.place.data_append as int,
                        records_handed(messages) as int,
                    ) as int,
                    1,
                ),
            },
        )
    }
}

/// What a summary tells is what was planned for the volume and has been written.
pub open spec fn tells_all(
    path: Seq<char>,
    options: WriteOptions,
    told: Seq<(WriteReply, bool)>,
    messages: Seq<MessageModel>,
    summary: SummaryModel,
) -> bool {
    match (volume_told(told), plan_told(path, told)) {
        (Some(v), Some(plan)) => {
            &&& summary.generation == saturating(v.index.generation as int, 1)
            &&& summary.file_uid == plan.highest_uid
            &&& summary.directories == plan.directories
            &&& summary.verification == options.verification
            &&& follows(plan, messages) ==> all_planned(
                plan,
                messages,
                summary.hashes,
                summary.files,
                summary.bytes,
            )
        },
        _ => false,
    }
}

/// What holds at a stage.
pub open spec fn stage_holds(
    path: Seq<char>,
    told: Seq<(WriteReply, bool)>,
    messages: Seq<MessageModel>,
    stage: StageModel,
) -> bool {
    match stage {
        StageModel::Inspect => told.len() == 0 && messages.len() == 0,
        StageModel::FirstVci(v) => told.len() == 1 && volume_told(told) == Some(v)
            && messages.len() == 0,
        StageModel::SecondVci(v, _) => told.len() == 2 && volume_told(told) == Some(v)
            && messages.len() == 0,
        StageModel::Source(v) => told.len() == 3 && volume_told(told) == Some(v)
            && messages.len() == 0,
        StageModel::WriteAnywhere(p) => holds_plan(path, told, p) && messages.len() == 0,
        StageModel::Append(p, _) => holds_plan(path, told, p) && messages.len() == 0,
        StageModel::Pipeline(run) => holds_data(path, told, messages, run),
        StageModel::Receive(run) => holds_data(path, told, messages, run),
        StageModel::Idle(run) => holds_data(path, told, messages, run),
        StageModel::Write(run, data) => {
            &&& messages.len() > 0
            &&& messages.last() == MessageModel::Data(data)
            &&& run.writer.active is Some
            &&& holds_data(path, told, messages.drop_last(), run)
        },
        StageModel::Paced(run) => holds_data(path, told, messages, run),
        StageModel::Channels(run) => holds_data(path, told, messages, run),
        StageModel::Joined(run) => holds_data(path, told, messages, run)
            && run.writer.progress.files_completed >= run.writer.progress.files_total,
        StageModel::Commit(done, s) => holds_all(path, told, messages, done)
            && s.progress.files_total == done.progress.files_total && s.progress.bytes_written
            == done.progress.bytes_written,
        StageModel::Verify(done, _, _) => holds_all(path, told, messages, done),
        StageModel::Health(done) => holds_all(path, told, messages, done),
        StageModel::Ended => true,
    }
}

/// What holds of a move: the context is kept, the stage holds, and a write that has
/// finished tells all.
pub open spec fn turn_holds(
    path: Seq<char>,
    options: WriteOptions,
    told: Seq<(WriteReply, bool)>,
    messages: Seq<MessageModel>,
    turn: WriteTurn,
) -> bool {
    &&& turn.context.tape_path == path
    &&& turn.context.options.verification == options.verification
    &&& stage_holds(path, told, messages, turn.stage)
    &&& match turn.action {
        WriteActionModel::Finished(summary) => tells_all(path, options, told, messages, summary),
        _ => true,
    }
}

spec fn context_holds(path: Seq<char>, options: WriteOptions, c: ContextModel) -> bool {
    c.tape_path == path && c.options.verification == options.verification
}

proof fn lemma_fails(
    path: Seq<char>,
    options: WriteOptions,
    told: Seq<(WriteReply, bool)>,
    messages: Seq<MessageModel>,
    c: ContextModel,
    events: Seq<EventModel>,
    message: Seq<char>,
)
    requires
        context_holds(path, options, c),
    ensures
        turn_holds(path, options, told, messages, fails_with(c, events, message)),
{
    reveal(goes_on);
    reveal(fails_with);
}

// ---------------------------------------------------------------------------
// From move to move
// ---------------------------------------------------------------------------

proof fn lemma_more_told(path: Seq<char>, told: Seq<(WriteReply, bool)>)
    requires
        told.len() > 0,
    ensures
        told.drop_last().len() > 0 ==> volume_told(told) == volume_told(told.drop_last()),
        told.drop_last().len() > 3 ==> plan_told(path, told) == plan_told(path, told.drop_last()),
{
    let before = told.drop_last();
    if before.len() > 0 {
        assert(before[0] == told[0]);
    }
    if before.len() > 3 {
        assert(before[3] == told[3]);
    }
}

proof fn lemma_inspected(
    path: Seq<char>,
    options: WriteOptions,
    told: Seq<(WriteReply, bool)>,
    messages: Seq<MessageModel>,
    c: ContextModel,
)
    requires
        context_holds(path, options, c),
        told.len() == 1,
        messages.len() == 0,
    ensures
        turn_holds(path, options, told, messages, inspect_reply(c, told.last().0)),
{
    reveal(goes_on);
    reveal(fails_with);
    reveal(inspect_reply);
}

proof fn lemma_coherency_read(
    path: Seq<char>,
    options: WriteOptions,
    told: Seq<(WriteReply, bool)>,
    messages: Seq<MessageModel>,
    c: ContextModel,
    v: WritableModel,
    first: Result<Seq<u8>, Seq<char>>,
    second: Result<Seq<u8>, Seq<char>>,
)
    requires
        context_holds(path, options, c),
        volume_told(told) == Some(v),
        messages.len() == 0,
    ensures
        told.len() == 2 ==> turn_holds(
            path,
            options,
            told,
            messages,
            first_vci_reply(c, v, told.last().0),
        ),
        told.len() == 3 ==> turn_holds(
            path,
            options,
            told,
            messages,
            coherency_checked(c, v, first, second),
        ),
{
    reveal(goes_on);
    reveal(fails_with);
    reveal(first_vci_reply);
    reveal(coherency_checked);
}

proof fn lemma_source_told(
    path: Seq<char>,
    options: WriteOptions,
    told: Seq<(WriteReply, bool)>,
    messages: Seq<MessageModel>,
    c: ContextModel,
    v: WritableModel,
)
    requires
        context_holds(path, options, c),
        told.len() == 4,
        volume_told(told) == Some(v),
        messages.len() == 0,
    ensures
        turn_holds(path, options, told, messages, source_reply(c, v, told.last().0)),
{
    reveal(goes_on);
    reveal(fails_with);
    reveal(source_reply);
    reveal(source_known);
    match told.last().0 {
        WriteReply::Source { source, now } => {
            if source_plan(v.index, source, path, now@) is Ok {
                plan_counts_its_bytes(v.index, source, path, now@);
                plan_names_no_target_twice(v.index, source, path, now@);
                plan_files_are_found(v.index, source, path, now@);
                plan_numbers_its_entries(v.index, source, path, now@);
                plan_targets_were_free(v.index, source, path, now@);
            }
        },
        _ => {},
    }
}

proof fn lemma_prepared(
    path: Seq<char>,
    options: WriteOptions,
    told: Seq<(WriteReply, bool)>,
    messages: Seq<MessageModel>,
    c: ContextModel,
    p: PlannedWriteModel,
    s: AppendState,
    reply: WriteReply,
)
    requires
        context_holds(path, options, c),
        holds_plan(path, told, p),
        messages.len() == 0,
    ensures
        turn_holds(path, options, told, messages, anywhere_reply(c, p, reply)),
        turn_holds(path, options, told, messages, append_reply(c, p, s, reply)),
{
    reveal(goes_on);
    reveal(fails_with);
    reveal(anywhere_reply);
    reveal(write_enabled);
    reveal(append_reply);
    reveal(append_moves);
    let plan = plan_told(path, told)->0;
    assert(files_ended(messages) == 0);
    assert(bytes_handed(messages, 0) == Seq::<u8>::empty());
    assert(plan.files.take(0) =~= Seq::<PlannedModel>::empty());
    assert(planned_bytes(plan.files.take(0)) == 0);
    assert(records_handed(messages) == 0 && records_before(messages, 0) == 0);
}

proof fn lemma_file_begun(
    plan: PlanState,
    messages: Seq<MessageModel>,
    w: DataState,
    append: u64,
    target: Seq<char>,
    description: Seq<char>,
    expected_size: u64,
)
    requires
        w.active is None,
        follows(plan, messages) ==> counted(plan, messages, w, append),
    ensures
        ({
            let after = messages.push(
                MessageModel::FileStart { target, description, expected_size },
            );
            follows(plan, after) ==> counted(
                plan,
                after,
                file_begun(w, target, description, expected_size),
                append,
            )
        }),
{
    let message = MessageModel::FileStart { target, description, expected_size };
    lemma_pushed(plan.files, messages, message);
}

proof fn lemma_record_written(
    plan: PlanState,
    messages: Seq<MessageModel>,
    w: DataState,
    append: u64,
    data: Seq<u8>,
)
    requires
        w.active is Some,
        follows(plan, messages) ==> counted(plan, messages, w, append),
    ensures
        ({
            let after = messages.push(MessageModel::Data(data));
            follows(plan, after) ==> counted(plan, after, record_written(w, data), append)
        }),
{
    let message = MessageModel::Data(data);
    let after = messages.push(message);
    lemma_pushed(plan.files, messages, message);
    let n = files_ended(messages);
    if follows(plan, after) {
        assert(bytes_handed(after, n) == bytes_handed(messages, n) + data);
        assert forall|k: nat| k != n implies #[trigger] bytes_handed(after, k) == bytes_handed(
            messages,
            k,
        ) by {}
    }
}

proof fn lemma_file_ended(
    plan: PlanState,
    messages: Seq<MessageModel>,
    w: DataState,
    append: u64,
    old_root: DirModel,
    actual_size: u64,
)
    requires
        follows(plan, messages) ==> counted(plan, messages, w, append) && files_kept(
            old_root,
            w.index.root,
        ),
        targets_differ(plan.files),
        targets_free(old_root, plan.files),
        file_ended(w, actual_size) is Ok,
    ensures
        tree_uids(file_ended(w, actual_size)->Ok_0.index.root) == tree_uids(w.index.root),
        ({
            let after = messages.push(MessageModel::FileEnd { actual_size });
            let next = file_ended(w, actual_size)->Ok_0;
            follows(plan, after) ==> counted(plan, after, next, append) && files_kept(
                old_root,
                next.index.root,
            )
        }),
{
    let message = MessageModel::FileEnd { actual_size };
    let after = messages.push(message);
    lemma_pushed(plan.files, messages, message);
    let n = files_ended(messages);
    if follows(plan, after) {
        lemma_nothing_handed_yet(messages, n + 1);
        lemma_first_bytes(plan.files, n);
        let next = file_ended(w, actual_size)->Ok_0;
        let a = w.active->0;
        assert(next.hashes == w.hashes.push(
            HashModel { path: a.target, sha256: sha256_text(a.bytes) },
        ));
        assert forall|i: int| 0 <= i < n + 1 implies (#[trigger] next.hashes[i]) == (HashModel {
            path: plan.files[i].target,
            sha256: sha256_text(bytes_handed(after, i as nat)),
        }) && plan.files[i].size == saturating(
            0,
            bytes_handed(after, i as nat).len() as int,
        ) by {
            if i < n {
                assert(next.hashes[i] == w.hashes[i]);
            }
        }
        ended_file_is_indexed(w, actual_size);
        lemma_all_before(messages, n + 1);
        assert(file_at(w.index.root, plan.files[n as int].target) == file_at(
            plan.root,
            plan.files[n as int].target,
        ));
        assert forall|i: int| 0 <= i < plan.files.len() implies file_at(
            next.index.root,
            (#[trigger] plan.files[i]).target,
        ) == if i < n + 1 {
            Some(entry_written(plan, after, i as nat, next.data_partition, append))
        } else {
            file_at(plan.root, plan.files[i].target)
        } by {
            if i != n {
                assert(path_parts(plan.files[i].target) != path_parts(
                    plan.files[n as int].target,
                ));
                ended_file_keeps_other_files(w, actual_size, plan.files[i].target);
            }
        }
        assert forall|path: Seq<char>| #[trigger] file_at(old_root, path) is Some implies file_at(
            next.index.root,
            path,
        ) == file_at(old_root, path) by {
            assert(file_at(old_root, plan.files[n as int].target) is None);
            assert(path_parts(path) != path_parts(plan.files[n as int].target));
            ended_file_keeps_other_files(w, actual_size, path);
        }
    }
    ended_file_keeps_uids(w, actual_size);
}

proof fn lemma_first_bytes(files: Seq<PlannedModel>, n: nat)
    requires
        n < files.len(),
    ensures
        planned_bytes(files.take(n as int + 1)) == planned_bytes(files.take(n as int))
            + files[n as int].size,
{
    assert(files.take(n as int + 1).drop_last() =~= files.take(n as int));
}

proof fn lemma_received(
    path: Seq<char>,
    options: WriteOptions,
    told: Seq<(WriteReply, bool)>,
    messages: Seq<MessageModel>,
    c: ContextModel,
    run: DataRunModel,
    reply: WriteReply,
)
    requires
        context_holds(path, options, c),
        holds_data(path, told, messages, run),
    ensures
        turn_holds(
            path,
            options,
            told,
            match reply {
                WriteReply::Message(Some(message)) => messages.push(message@),
                _ => messages,
            },
            receive_reply(c, run, reply),
        ),
{
    reveal(receive_reply);
    reveal(message_received);
    let plan = plan_told(path, told)->0;
    match reply {
        WriteReply::Message(Some(message)) => {
            let after = messages.push(message@);
            assert(after.drop_last() =~= messages);
            match message@ {
                MessageModel::FileStart { target, description, expected_size } => {
                    if run.writer.active is None {
                        lemma_file_begun(
                            plan,
                            messages,
                            run.writer,
                            run.place.data_append,
                            target,
                            description,
                            expected_size,
                        );
                    }
                },
                MessageModel::FileEnd { actual_size } => {
                    if file_ended(run.writer, actual_size) is Ok {
                        lemma_file_ended(
                            plan,
                            messages,
                            run.writer,
                            run.place.data_append,
                            volume_told(told)->0.index.root,
                            actual_size,
                        );
                    }
                },
                _ => {},
            }
        },
        _ => {},
    }
    reveal(goes_on);
    reveal(fails_with);
}

proof fn lemma_record_taken(
    path: Seq<char>,
    options: WriteOptions,
    told: Seq<(WriteReply, bool)>,
    messages: Seq<MessageModel>,
    c: ContextModel,
    run: DataRunModel,
    data: Seq<u8>,
    reply: WriteReply,
)
    requires
        context_holds(path, options, c),
        run.writer.active is Some,
        messages.len() > 0,
        messages.last() == MessageModel::Data(data),
        holds_data(path, told, messages.drop_last(), run),
    ensures
        turn_holds(path, options, told, messages, record_reply(c, run, data, reply)),
{
    reveal(goes_on);
    reveal(fails_with);
    reveal(record_reply);
    let plan = plan_told(path, told)->0;
    lemma_record_written(
        plan,
        messages.drop_last(),
        run.writer,
        run.place.data_append,
        data,
    );
    assert(messages.drop_last().push(MessageModel::Data(data)) =~= messages);
}

proof fn lemma_paced(
    path: Seq<char>,
    options: WriteOptions,
    told: Seq<(WriteReply, bool)>,
    messages: Seq<MessageModel>,
    c: ContextModel,
    run: DataRunModel,
    reply: WriteReply,
)
    requires
        context_holds(path, options, c),
        holds_data(path, told, messages, run),
    ensures
        turn_holds(path, options, told, messages, pipeline_reply(c, run, reply)),
        turn_holds(path, options, told, messages, idle_reply(c, run, reply)),
        turn_holds(path, options, told, messages, paced_reply(c, run, reply)),
        turn_holds(path, options, told, messages, channels_reply(c, run, reply)),
{
    reveal(goes_on);
    reveal(fails_with);
    reveal(pipeline_reply);
    reveal(idle_reply);
    reveal(paced_reply);
    reveal(record_paced);
    reveal(channels_reply);
}

// ---------------------------------------------------------------------------
// The commit, and what follows
// ---------------------------------------------------------------------------

pub proof fn lemma_commit_keeps(s: CommitState)
    ensures
        ({
            let t = commit_go(s).state;
            &&& t.progress == s.progress
            &&& t.options.verification == s.options.verification
        }),
    decreases s.rest.len(),
{
    if s.rest.len() > 0 {
        let first = s.rest[0];
        let t = CommitState {
            rest: s.rest.drop_first(),
            wait: CommitWait::Done,
            at: first.at,
            coherency: first.coherency,
            ..s
        };
        match first.work {
            CommitWorkModel::Report(_) => {
                lemma_commit_keeps(t);
            },
            CommitWorkModel::Stop(point) => {
                lemma_commit_keeps(CommitState { options: options_at(s.options, point), ..t });
            },
            _ => {},
        }
    }
}

proof fn lemma_verified(
    path: Seq<char>,
    options: WriteOptions,
    told: Seq<(WriteReply, bool)>,
    messages: Seq<MessageModel>,
    c: ContextModel,
    done: CommittedModel,
    k: nat,
    events: Seq<EventModel>,
)
    requires
        context_holds(path, options, c),
        holds_all(path, told, messages, done),
    ensures
        turn_holds(path, options, told, messages, verify_from(c, done, k, events)),
    decreases done.hashes.len() - k,
{
    reveal(goes_on);
    reveal(fails_with);
    if k < done.hashes.len() {
        let h = done.hashes[k as int];
        let all = events.push(progress_event(done.progress, WritePhase::Verifying, Some(h.path)));
        lemma_verified(path, options, told, messages, c, done, k + 1, all);
    }
}

proof fn lemma_commit_moves(
    path: Seq<char>,
    options: WriteOptions,
    told: Seq<(WriteReply, bool)>,
    messages: Seq<MessageModel>,
    c: ContextModel,
    done: CommittedModel,
    turn: CommitTurn,
    events: Seq<EventModel>,
)
    requires
        context_holds(path, options, c),
        holds_all(path, told, messages, done),
        turn.state.options.verification == options.verification,
        turn.state.progress.files_total == done.progress.files_total,
        turn.state.progress.bytes_written == done.progress.bytes_written,
    ensures
        turn_holds(path, options, told, messages, commit_moves(c, done, turn, events)),
{
    reveal(goes_on);
    reveal(fails_with);
    reveal(commit_moves);
    reveal(commit_done);
    let d = ContextModel { options: turn.state.options, ..c };
    let finished = CommittedModel { progress: turn.state.progress, ..done };
    let e = ContextModel { options: options_at(d.options, WriteFailpoint::BeforeVerify), ..d };
    lemma_verified(
        path,
        options,
        told,
        messages,
        e,
        finished,
        0,
        (events + turn.events).push(
            progress_event(finished.progress, WritePhase::Verifying, None),
        ),
    );
}

proof fn lemma_joined(
    path: Seq<char>,
    options: WriteOptions,
    told: Seq<(WriteReply, bool)>,
    messages: Seq<MessageModel>,
    c: ContextModel,
    run: DataRunModel,
    events: Seq<EventModel>,
)
    requires
        context_holds(path, options, c),
        holds_data(path, told, messages, run),
        run.writer.progress.files_completed >= run.writer.progress.files_total,
    ensures
        turn_holds(path, options, told, messages, data_done(c, run, events)),
{
    reveal(data_done);
    let places = places_of(run);
    let data_index = data_index_of(
        run.writer.index,
        c.now,
        run.facts.highest_uid,
        data_place(places),
        places.last,
    );
    let copy = index_copy_of(data_index, copy_place(places));
    let done = CommittedModel {
        index: copy,
        hashes: run.writer.hashes,
        progress: run.writer.progress,
        facts: run.facts,
        place: run.place,
    };
    let plan = plan_told(path, told)->0;
    if follows(plan, messages) {
        assert(plan.files.take(plan.files.len() as int) =~= plan.files);
        assert(files_ended(messages) == plan.files.len());
    }
    assert(holds_all(path, told, messages, done));
    let s = first_commit_state(c, run, data_index, copy);
    lemma_commit_keeps(s);
    lemma_commit_moves(path, options, told, messages, c, done, commit_go(s), events);
}

proof fn lemma_committed(
    path: Seq<char>,
    options: WriteOptions,
    told: Seq<(WriteReply, bool)>,
    messages: Seq<MessageModel>,
    c: ContextModel,
    done: CommittedModel,
    s: CommitState,
    reply: WriteReply,
)
    requires
        context_holds(path, options, c),
        holds_all(path, told, messages, done),
        s.progress.files_total == done.progress.files_total,
        s.progress.bytes_written == done.progress.bytes_written,
    ensures
        turn_holds(path, options, told, messages, commit_reply(c, done, s, reply)),
{
    reveal(commit_reply);
    match reply {
        WriteReply::Tape(r) => {
            let t = CommitState { options: c.options, ..s };
            lemma_commit_keeps(step_done(t));
            match r {
                TapeReply::Bytes(bytes) => {
                    lemma_commit_keeps(CommitState { vcr: bytes@, ..t });
                },
                _ => {},
            }
            let none = Seq::<EventModel>::empty();
            lemma_commit_moves(path, options, told, messages, c, done, commit_next(t, r), none);
        },
        _ => {
            lemma_fails(
                path,
                options,
                told,
                messages,
                c,
                Seq::empty(),
                write_refusal(reply),
            );
        },
    }
}

proof fn lemma_checked(
    path: Seq<char>,
    options: WriteOptions,
    told: Seq<(WriteReply, bool)>,
    messages: Seq<MessageModel>,
    c: ContextModel,
    done: CommittedModel,
    k: nat,
    s: HashState,
    reply: WriteReply,
)
    requires
        context_holds(path, options, c),
        holds_all(path, told, messages, done),
    ensures
        turn_holds(path, options, told, messages, verify_reply(c, done, k, s, reply)),
        turn_holds(path, options, told, messages, health_reply(c, done, reply)),
{
    reveal(goes_on);
    reveal(fails_with);
    reveal(verify_reply);
    reveal(verify_moves);
    reveal(health_reply);
    reveal(write_done);
    lemma_verified(path, options, told, messages, c, done, k + 1, Seq::empty());
}

proof fn lemma_last_sample(
    path: Seq<char>,
    options: WriteOptions,
    told: Seq<(WriteReply, bool)>,
    messages: Seq<MessageModel>,
    c: ContextModel,
    run: DataRunModel,
    reply: WriteReply,
)
    requires
        context_holds(path, options, c),
        holds_data(path, told, messages, run),
        run.writer.progress.files_completed >= run.writer.progress.files_total,
    ensures
        turn_holds(path, options, told, messages, joined_reply(c, run, reply)),
{
    reveal(joined_reply);
    match reply {
        WriteReply::Performance(sample) => {
            lemma_joined(
                path,
                options,
                told,
                messages,
                c,
                run,
                performance_events(run.writer.progress, None, sample),
            );
        },
        _ => {
            lemma_fails(
                path,
                options,
                told,
                messages,
                c,
                Seq::empty(),
                write_refusal(reply),
            );
        },
    }
}

// ---------------------------------------------------------------------------
// Laws
// ---------------------------------------------------------------------------

proof fn lemma_run_holds(path: Seq<char>, options: WriteOptions, told: Seq<(WriteReply, bool)>)
    ensures
        turn_holds(
            path,
            options,
            told,
            received(path, options, told),
            write_run(path, options, told),
        ),
    decreases told.len(),
{
    if told.len() > 0 {
        let before = told.drop_last();
        lemma_run_holds(path, options, before);
        lemma_more_told(path, told);
        let turn = write_run(path, options, before);
        let messages = received(path, options, before);
        let reply = told.last().0;
        let c = ContextModel {
            options: asked(turn.context.options, told.last().1),
            ..turn.context
        };
        match turn.stage {
            StageModel::Inspect => {
                lemma_inspected(path, options, told, messages, c);
            },
            StageModel::FirstVci(v) => {
                lemma_coherency_read(
                    path,
                    options,
                    told,
                    messages,
                    c,
                    v,
                    vci_bytes_of(reply),
                    vci_bytes_of(reply),
                );
            },
            StageModel::SecondVci(v, first) => {
                lemma_coherency_read(
                    path,
                    options,
                    told,
                    messages,
                    c,
                    v,
                    first,
                    vci_bytes_of(reply),
                );
            },
            StageModel::Source(v) => {
                lemma_source_told(path, options, told, messages, c, v);
            },
            StageModel::WriteAnywhere(p) => {
                lemma_prepared(path, options, told, messages, c, p, arbitrary(), reply);
            },
            StageModel::Append(p, s) => {
                lemma_prepared(path, options, told, messages, c, p, s, reply);
            },
            StageModel::Pipeline(run) => {
                lemma_paced(path, options, told, messages, c, run, reply);
            },
            StageModel::Receive(run) => {
                lemma_received(path, options, told, messages, c, run, reply);
            },
            StageModel::Idle(run) => {
                lemma_paced(path, options, told, messages, c, run, reply);
            },
            StageModel::Write(run, data) => {
                lemma_record_taken(path, options, told, messages, c, run, data, reply);
            },
            StageModel::Paced(run) => {
                lemma_paced(path, options, told, messages, c, run, reply);
            },
            StageModel::Channels(run) => {
                lemma_paced(path, options, told, messages, c, run, reply);
            },
            StageModel::Joined(run) => {
                lemma_last_sample(path, options, told, messages, c, run, reply);
            },
            StageModel::Commit(done, s) => {
                lemma_committed(path, options, told, messages, c, done, s, reply);
            },
            StageModel::Verify(done, k, s) => {
                lemma_checked(path, options, told, messages, c, done, k, s, reply);
            },
            StageModel::Health(done) => {
                lemma_checked(path, options, told, messages, c, done, 0, arbitrary(), reply);
            },
            StageModel::Ended => {
                lemma_fails(path, options, told, messages, c, Seq::empty(), misfit());
            },
        }
    }
}

/// Whether a write is read back was chosen at its start.
pub proof fn lemma_run_keeps_choice(
    path: Seq<char>,
    options: WriteOptions,
    told: Seq<(WriteReply, bool)>,
)
    ensures
        write_run(path, options, told).context.options.verification == options.verification,
{
    lemma_run_holds(path, options, told);
}

pub proof fn lemma_commit_next_keeps(s: CommitState, reply: TapeReply)
    ensures
        commit_next(s, reply).state.options.verification == s.options.verification,
{
    lemma_commit_keeps(step_done(s));
    match reply {
        TapeReply::Bytes(bytes) => {
            lemma_commit_keeps(CommitState { vcr: bytes@, ..s });
        },
        _ => {},
    }
}

proof fn lemma_check_does_not_finish(
    c: ContextModel,
    done: CommittedModel,
    k: nat,
    events: Seq<EventModel>,
)
    ensures
        !(verify_from(c, done, k, events).action is Finished),
    decreases done.hashes.len() - k,
{
    reveal(goes_on);
    reveal(fails_with);
    if k < done.hashes.len() {
        let h = done.hashes[k as int];
        let all = events.push(progress_event(done.progress, WritePhase::Verifying, Some(h.path)));
        lemma_check_does_not_finish(c, done, k + 1, all);
    }
}

proof fn lemma_commit_does_not_finish(
    c: ContextModel,
    done: CommittedModel,
    turn: CommitTurn,
    events: Seq<EventModel>,
)
    ensures
        !(commit_moves(c, done, turn, events).action is Finished),
{
    reveal(goes_on);
    reveal(fails_with);
    reveal(commit_moves);
    reveal(commit_done);
    let d = ContextModel { options: turn.state.options, ..c };
    let finished = CommittedModel { progress: turn.state.progress, ..done };
    let e = ContextModel { options: options_at(d.options, WriteFailpoint::BeforeVerify), ..d };
    lemma_check_does_not_finish(
        e,
        finished,
        0,
        (events + turn.events).push(
            progress_event(finished.progress, WritePhase::Verifying, None),
        ),
    );
}

pub proof fn lemma_early_stages_do_not_finish(c: ContextModel, stage: StageModel, reply: WriteReply)
    requires
        stage is Inspect || stage is FirstVci || stage is SecondVci || stage is Source
            || stage is WriteAnywhere || stage is Append || stage is Ended,
    ensures
        !(write_next(c, stage, reply).action is Finished),
        !(write_next(c, stage, reply).stage is Verify),
        !(write_next(c, stage, reply).stage is Health),
{
    reveal(goes_on);
    reveal(fails_with);
    reveal(inspect_reply);
    reveal(first_vci_reply);
    reveal(coherency_checked);
    reveal(source_reply);
    reveal(source_known);
    reveal(anywhere_reply);
    reveal(write_enabled);
    reveal(append_reply);
    reveal(append_moves);
}

pub proof fn lemma_data_stages_do_not_finish(c: ContextModel, stage: StageModel, reply: WriteReply)
    requires
        stage is Pipeline || stage is Receive || stage is Idle || stage is Write || stage is Paced
            || stage is Channels,
    ensures
        !(write_next(c, stage, reply).action is Finished),
        !(write_next(c, stage, reply).stage is Verify),
        !(write_next(c, stage, reply).stage is Health),
{
    reveal(goes_on);
    reveal(fails_with);
    reveal(pipeline_reply);
    reveal(receive_reply);
    reveal(message_received);
    reveal(idle_reply);
    reveal(record_reply);
    reveal(paced_reply);
    reveal(record_paced);
    reveal(channels_reply);
}

/// A write finishes only once everything is committed and checked, and the health of the
/// drive has been read.
pub proof fn write_finishes_last(c: ContextModel, stage: StageModel, reply: WriteReply)
    requires
        write_next(c, stage, reply).action is Finished,
    ensures
        stage is Health,
        reply is Done,
{
    match stage {
        StageModel::Health(_) => {
            reveal(goes_on);
            reveal(fails_with);
            reveal(health_reply);
        },
        StageModel::Joined(run) => {
            reveal(joined_reply);
            reveal(fails_with);
            reveal(goes_on);
            match reply {
                WriteReply::Performance(sample) => {
                    reveal(data_done);
                    let places = places_of(run);
                    let data_index = data_index_of(
                        run.writer.index,
                        c.now,
                        run.facts.highest_uid,
                        data_place(places),
                        places.last,
                    );
                    let copy = index_copy_of(data_index, copy_place(places));
                    lemma_commit_does_not_finish(
                        c,
                        CommittedModel {
                            index: copy,
                            hashes: run.writer.hashes,
                            progress: run.writer.progress,
                            facts: run.facts,
                            place: run.place,
                        },
                        commit_go(first_commit_state(c, run, data_index, copy)),
                        performance_events(run.writer.progress, None, sample),
                    );
                },
                _ => {},
            }
        },
        StageModel::Commit(done, s) => {
            reveal(commit_reply);
            reveal(fails_with);
            reveal(goes_on);
            match reply {
                WriteReply::Tape(r) => {
                    let t = CommitState { options: c.options, ..s };
                    lemma_commit_does_not_finish(c, done, commit_next(t, r), Seq::empty());
                },
                _ => {},
            }
        },
        StageModel::Verify(done, k, _) => {
            reveal(verify_reply);
            reveal(verify_moves);
            reveal(fails_with);
            reveal(goes_on);
            lemma_check_does_not_finish(c, done, k + 1, Seq::empty());
        },
        StageModel::Pipeline(_) | StageModel::Receive(_) | StageModel::Idle(_)
        | StageModel::Write(_, _) | StageModel::Paced(_) | StageModel::Channels(_) => {
            lemma_data_stages_do_not_finish(c, stage, reply);
        },
        _ => {
            lemma_early_stages_do_not_finish(c, stage, reply);
        },
    }
}

/// A write that ends well, of a source whose reader hands on the plan that the write made,
/// has written all of it: the index is of the next generation, there is one digest for
/// every planned file, in the order of the plan and under its target, of the bytes that
/// were handed on of it, the bytes add up to the planned sizes, and the highest file UID is
/// the one of the plan.
///
/// The count of the files of a plan is in the range of `usize`, as every plan that has been
/// made is a list in memory.
pub proof fn finished_write_is_whole(
    path: Seq<char>,
    options: WriteOptions,
    told: Seq<(WriteReply, bool)>,
    block_capacity: nat,
    reader_cancelled: bool,
    reader_told: Seq<(ReaderReply, bool)>,
)
    requires
        write_run(path, options, told).action is Finished,
        plan_told(path, told) matches Some(plan) ==> {
            &&& plan.files.len() <= usize::MAX
            &&& received(path, options, told).is_prefix_of(
                handed_on(plan.files, block_capacity, reader_cancelled, reader_told),
            )
        },
    ensures
        volume_told(told) is Some,
        plan_told(path, told) is Some,
        ({
            let summary = write_run(path, options, told).action->Finished_0;
            let generation = volume_told(told)->0.index.generation;
            let plan = plan_told(path, told)->0;
            let messages = received(path, options, told);
            &&& generation < u64::MAX ==> summary.generation == generation + 1
            &&& generation == u64::MAX ==> summary.generation == generation
            &&& summary.file_uid == plan.highest_uid
            &&& summary.files == plan.files.len()
            &&& summary.directories == plan.directories
            &&& summary.bytes == planned_bytes(plan.files)
            &&& summary.bytes == plan.total_bytes
            &&& summary.verification == options.verification
            &&& summary.hashes.len() == plan.files.len()
            &&& forall|i: int|
                0 <= i < plan.files.len() ==> (#[trigger] summary.hashes[i]) == (HashModel {
                    path: plan.files[i].target,
                    sha256: sha256_text(bytes_handed(messages, i as nat)),
                })
            &&& forall|i: int|
                0 <= i < plan.files.len() && plan.files[i].size < u64::MAX ==> bytes_handed(
                    messages,
                    i as nat,
                ).len() == (#[trigger] plan.files[i]).size
        }),
{
    lemma_run_holds(path, options, told);
    let plan = plan_told(path, told)->0;
    let messages = received(path, options, told);
    let v = volume_told(told)->0;
    match told[3].0 {
        WriteReply::Source { source, now } => {
            plan_counts_its_bytes(v.index, source, path, now@);
        },
        _ => {},
    }
    let all = handed_on(plan.files, block_capacity, reader_cancelled, reader_told);
    reader_announces_the_plan(plan.files, block_capacity, reader_cancelled, reader_told);
    lemma_announced_so_far(plan.files, messages, all);
    let summary = write_run(path, options, told).action->Finished_0;
    assert forall|i: int| 0 <= i < plan.files.len() && plan.files[i].size
        < u64::MAX implies bytes_handed(messages, i as nat).len() == (
    #[trigger] plan.files[i]).size by {
        assert(summary.hashes[i].path == plan.files[i].target);
    }
}

/// A write that ends well, of a source whose reader hands on the plan that the write made,
/// has committed an index of the next generation in which every planned file is found under
/// its target: the planned entry with its size, the digest of the bytes that were handed on
/// of it, and one extent in the data partition, at the block at which its first record was
/// written. Every file that the volume held before is found as it was.
pub proof fn finished_write_is_indexed(
    path: Seq<char>,
    options: WriteOptions,
    told: Seq<(WriteReply, bool)>,
    block_capacity: nat,
    reader_cancelled: bool,
    reader_told: Seq<(ReaderReply, bool)>,
)
    requires
        write_run(path, options, told).action is Finished,
        plan_told(path, told) matches Some(plan) ==> {
            &&& plan.files.len() <= usize::MAX
            &&& received(path, options, told).is_prefix_of(
                handed_on(plan.files, block_capacity, reader_cancelled, reader_told),
            )
        },
    ensures
        volume_told(told) is Some,
        plan_told(path, told) is Some,
        ({
            let v = volume_told(told)->0;
            let plan = plan_told(path, told)->0;
            let messages = received(path, options, told);
            &&& write_run(path, options, told.drop_last()).stage matches StageModel::Health(done)
            &&& done.index.generation == saturating(v.index.generation as int, 1)
            &&& files_kept(v.index.root, done.index.root)
            &&& done.index.self_location.partition == v.label.index_partition
            &&& done.index.previous_location matches Some(at)
            &&& at.partition == v.label.data_partition
            &&& done.place.data_append + records_handed(messages) < u64::MAX ==> at.startblock
                == done.place.data_append + records_handed(messages) + 1
            &&& forall|i: int|
                0 <= i < plan.files.len() ==> file_at(plan.root, (#[trigger] plan.files[i]).target)
                    is Some && file_at(done.index.root, plan.files[i].target) == Some(
                    entry_written(
                        plan,
                        messages,
                        i as nat,
                        v.label.data_partition,
                        done.place.data_append,
                    ),
                )
            &&& forall|i: int|
                0 <= i < plan.files.len() ==> (file_at(
                    done.index.root,
                    (#[trigger] plan.files[i]).target,
                ) matches Some(f) && written_as(
                    f,
                    v.label.data_partition,
                    plan.files[i].size,
                    sha256_text(bytes_handed(messages, i as nat)),
                ))
        }),
{
    lemma_run_holds(path, options, told);
    let before = told.drop_last();
    let turn = write_run(path, options, before);
    let c = ContextModel { options: asked(turn.context.options, told.last().1), ..turn.context };
    write_finishes_last(c, turn.stage, told.last().0);
    lemma_run_holds(path, options, before);
    lemma_more_told(path, told);
    let plan = plan_told(path, told)->0;
    let messages = received(path, options, told);
    let all = handed_on(plan.files, block_capacity, reader_cancelled, reader_told);
    reader_announces_the_plan(plan.files, block_capacity, reader_cancelled, reader_told);
    lemma_announced_so_far(plan.files, messages, all);
    let done = turn.stage->Health_0;
    let v = volume_told(told)->0;
    assert forall|i: int| 0 <= i < plan.files.len() implies (file_at(
        done.index.root,
        (#[trigger] plan.files[i]).target,
    ) matches Some(f) && written_as(
        f,
        v.label.data_partition,
        plan.files[i].size,
        sha256_text(bytes_handed(messages, i as nat)),
    )) by {
        let append = done.place.data_append;
        let f = entry_written(plan, messages, i as nat, v.label.data_partition, append);
        assert(f == written_file(
            file_at(plan.root, plan.files[i].target)->0,
            v.label.data_partition,
            saturating(append as int, records_before(messages, i as nat) as int),
            plan.files[i].size,
            sha256_text(bytes_handed(messages, i as nat)),
        ));
    }
}

/// A write that ends well, of whatever was handed on, has committed an index that tells the
/// highest number that was given out. The entries of the volume keep their numbers, and
/// beside those exactly the numbers behind the highest one are used, each once, so that no
/// number is used twice where none was: whatever has been written before, the index that
/// the next write starts from is sound again.
pub proof fn finished_write_numbers_its_entries(
    path: Seq<char>,
    options: WriteOptions,
    told: Seq<(WriteReply, bool)>,
)
    requires
        write_run(path, options, told).action is Finished,
    ensures
        volume_told(told) is Some,
        plan_told(path, told) is Some,
        ({
            let index = volume_told(told)->0.index;
            let plan = plan_told(path, told)->0;
            let summary = write_run(path, options, told).action->Finished_0;
            &&& write_run(path, options, told.drop_last()).stage matches StageModel::Health(done)
            &&& done.index.highest_file_uid == Some(summary.file_uid)
            &&& summary.file_uid == plan.highest_uid
            &&& uids_sound(index) ==> {
                &&& uids_sound(done.index)
                &&& uids_added(
                    index.root,
                    done.index.root,
                    index.highest_file_uid->0,
                    done.index.highest_file_uid->0,
                )
                &&& plan.directories < usize::MAX ==> done.index.highest_file_uid->0
                    == index.highest_file_uid->0 + plan.files.len() + plan.directories
            }
        }),
{
    lemma_run_holds(path, options, told);
    let before = told.drop_last();
    let turn = write_run(path, options, before);
    let c = ContextModel { options: asked(turn.context.options, told.last().1), ..turn.context };
    write_finishes_last(c, turn.stage, told.last().0);
    lemma_run_holds(path, options, before);
    lemma_more_told(path, told);
    let v = volume_told(told)->0;
    let plan = plan_told(path, told)->0;
    let done = turn.stage->Health_0;
    match told[3].0 {
        WriteReply::Source { source, now } => {
            plan_numbers_its_entries(v.index, source, path, now@);
        },
        _ => {},
    }
    if uids_sound(v.index) {
        let from = v.index.highest_file_uid->0;
        assert(uids_added(v.index.root, done.index.root, from, plan.highest_uid)) by {
            assert forall|uid: u64| #[trigger]
                tree_uids(done.index.root).count(uid) == tree_uids(v.index.root).count(uid)
                    + if from < uid <= plan.highest_uid {
                    1nat
                } else {
                    0nat
                } by {
                assert(tree_uids(plan.root).count(uid) == tree_uids(done.index.root).count(uid));
            }
        }
        added_uids_stay_sound(v.index.root, done.index.root, from, plan.highest_uid);
    }
}

/// A write that finishes had stood at its last stage, behind its plan.
pub proof fn lemma_stage_is_reached_in_time(
    path: Seq<char>,
    options: WriteOptions,
    told: Seq<(WriteReply, bool)>,
)
    requires
        write_run(path, options, told).action is Finished,
    ensures
        told.len() > 4,
        write_run(path, options, told.drop_last()).stage is Health,
{
    if told.len() == 0 {
        reveal(goes_on);
    } else {
        let before = told.drop_last();
        let turn = write_run(path, options, before);
        let c = ContextModel { options: asked(turn.context.options, told.last().1), ..turn.context };
        write_finishes_last(c, turn.stage, told.last().0);
        lemma_run_holds(path, options, before);
    }
}

} // verus!
