//! What a commit leaves on the tape.
use vstd::prelude::*;
use vstd::utf8::*;

use super::commit::{
    chunks_of, coherency_steps, commit_go, commit_next, commit_script, commit_start, commit_vci,
    data_index_steps, index_copy_steps, index_steps, record_steps, step, step_done, step_to,
    CommitActionModel, CommitState, CommitStepModel, CommitTurn, CommitWait, CommitWorkModel,
};
use super::flow::{CommandModel, TapeReply};
use super::tape_law::{block_put, honest, marked, obeyed, BlockModel, TapeModel};
use super::write_state::{
    failure_spec, options_at, stop_spec, EventModel, WriteOptions, WritePhase, WriteProgress,
};
use crate::ltfs::index::{IndexModel, TapePos};
use crate::ltfs::index_xml::index_xml;
use crate::ltfs::mam::{VOLUME_CHANGE_REFERENCE, VOLUME_COHERENCY_INFORMATION};
use crate::text::contains_spec;

verus! {

/// A commit once it has been told so much.
pub open spec fn commit_run(start: CommitState, told: Seq<TapeReply>) -> CommitTurn
    decreases told.len(),
{
    if told.len() == 0 {
        commit_go(start)
    } else {
        commit_next(commit_run(start, told.drop_last()).state, told.last())
    }
}

/// The tape once the commands of a commit have been carried out that were answered.
pub open spec fn commit_tape(start: CommitState, t: TapeModel, told: Seq<TapeReply>) -> TapeModel
    decreases told.len(),
{
    if told.len() == 0 {
        t
    } else {
        let before = commit_tape(start, t, told.drop_last());
        match commit_run(start, told.drop_last()).action {
            CommitActionModel::Command(command) => obeyed(before, command),
            _ => before,
        }
    }
}

/// The drive has answered every command of a commit honestly.
pub open spec fn all_honest(start: CommitState, t: TapeModel, told: Seq<TapeReply>) -> bool
    decreases told.len(),
{
    told.len() == 0 || (all_honest(start, t, told.drop_last()) && (commit_run(
        start,
        told.drop_last(),
    ).action matches CommitActionModel::Command(command) && honest(
        commit_tape(start, t, told.drop_last()),
        command,
        told.last(),
    )))
}

/// What a step of a commit does to the tape.
spec fn step_tape(t: TapeModel, s: CommitState, vcr: Seq<u8>, work: CommitWorkModel) -> TapeModel {
    match work {
        CommitWorkModel::Command(command) => obeyed(t, command),
        CommitWorkModel::Coherency { partition, block } => TapeModel {
            memory: t.memory.insert(
                (partition, VOLUME_COHERENCY_INFORMATION),
                commit_vci(vcr, s.generation, block, s.volume_uuid)->Ok_0,
            ),
            ..t
        },
        _ => t,
    }
}

spec fn steps_tape(
    t: TapeModel,
    s: CommitState,
    vcr: Seq<u8>,
    steps: Seq<CommitStepModel>,
) -> TapeModel
    decreases steps.len(),
{
    if steps.len() == 0 {
        t
    } else {
        step_tape(steps_tape(t, s, vcr, steps.drop_last()), s, vcr, steps.last().work)
    }
}

/// How many of the steps wait for the drive.
pub open spec fn waits(steps: Seq<CommitStepModel>) -> nat
    decreases steps.len(),
{
    if steps.len() == 0 {
        0
    } else {
        waits(steps.drop_last()) + match steps.last().work {
            CommitWorkModel::Report(_) | CommitWorkModel::Stop(_) => 0nat,
            _ => 1nat,
        }
    }
}

/// Nothing asks a write to stop.
pub open spec fn goes_through(options: WriteOptions) -> bool {
    &&& options.failpoint is None
    &&& options.cancelpoint is None
    &&& options.cancellation matches Some(token) ==> !token.requested
}

spec fn vci_given(start: CommitState, vcr: Seq<u8>, script: Seq<CommitStepModel>) -> bool {
    forall|i: int|
        0 <= i < script.len() ==> ((#[trigger] script[i]).work matches CommitWorkModel::Coherency {
            partition,
            block,
        } ==> commit_vci(vcr, start.generation, block, start.volume_uuid) is Ok)
}

/// The one step of a script that reads the reference, in front of those that need it.
spec fn refers(script: Seq<CommitStepModel>, at: int) -> bool {
    &&& 0 <= at < script.len()
    &&& script[at].work is Reference
    &&& forall|i: int| 0 <= i < script.len() && i != at ==> !((#[trigger] script[i]).work is Reference)
    &&& forall|i: int| 0 <= i <= at ==> !((#[trigger] script[i]).work is Coherency)
    &&& forall|i: int|
        0 <= i < script.len() ==> ((#[trigger] script[i]).work matches CommitWorkModel::Command(c)
            ==> !(c is ReadMam || c is WriteMam || c is ReadPosition))
}

/// What holds of a move once the first `k` steps are behind.
spec fn moved_on(
    turn: CommitTurn,
    start: CommitState,
    script: Seq<CommitStepModel>,
    at: int,
    vcr: Seq<u8>,
    before: TapeModel,
    t: TapeModel,
    answered: nat,
) -> bool {
    &&& turn.state.generation == start.generation
    &&& turn.state.volume_uuid == start.volume_uuid
    &&& goes_through(start.options) ==> goes_through(turn.state.options)
    &&& match turn.action {
        CommitActionModel::Failed(_) => !(goes_through(start.options) && vci_given(
            start,
            vcr,
            script,
        )),
        CommitActionModel::Finished => {
            &&& t == steps_tape(before, start, vcr, script)
            &&& answered == waits(script)
            &&& turn.state.rest.len() == 0
        },
        CommitActionModel::Command(c) => {
            let k = script.len() - turn.state.rest.len();
            &&& 0 < k <= script.len()
            &&& turn.state.rest == script.skip(k)
            &&& t == steps_tape(before, start, vcr, script.take(k - 1))
            &&& obeyed(t, c) == steps_tape(before, start, vcr, script.take(k))
            &&& answered == waits(script.take(k - 1))
            &&& waits(script.take(k)) == answered + 1
            &&& k - 1 > at ==> turn.state.vcr == vcr
            &&& (turn.state.wait is Reference <==> k - 1 == at)
            &&& (c is ReadMam <==> k - 1 == at)
            &&& !(c is ReadPosition)
            &&& c is ReadMam ==> c == (CommandModel::ReadMam {
                partition: 0,
                id: VOLUME_CHANGE_REFERENCE,
            })
        },
    }
}

proof fn lemma_go(
    s: CommitState,
    start: CommitState,
    script: Seq<CommitStepModel>,
    at: int,
    vcr: Seq<u8>,
    before: TapeModel,
    t: TapeModel,
    answered: nat,
    k: int,
)
    requires
        refers(script, at),
        0 <= k <= script.len(),
        s.rest == script.skip(k),
        s.generation == start.generation,
        s.volume_uuid == start.volume_uuid,
        goes_through(start.options) ==> goes_through(s.options),
        t == steps_tape(before, start, vcr, script.take(k)),
        answered == waits(script.take(k)),
        k > at ==> s.vcr == vcr,
    ensures
        moved_on(commit_go(s), start, script, at, vcr, before, t, answered),
    decreases script.len() - k,
{
    if k == script.len() {
        assert(script.take(k) =~= script);
    } else {
        let first = s.rest[0];
        assert(first == script[k]);
        assert(s.rest.drop_first() =~= script.skip(k + 1));
        assert(script.take(k + 1).drop_last() =~= script.take(k));
        assert(script.take(k + 1).last() == script[k]);
        assert(script.take(k + 1).len() == k + 1);
        let u = CommitState {
            rest: s.rest.drop_first(),
            wait: CommitWait::Done,
            at: first.at,
            coherency: first.coherency,
            ..s
        };
        match first.work {
            CommitWorkModel::Report(_) => {
                lemma_go(u, start, script, at, vcr, before, t, answered, k + 1);
            },
            CommitWorkModel::Stop(point) => {
                let v = CommitState { options: options_at(s.options, point), ..u };
                if stop_spec(s.options, point) is None {
                    lemma_go(v, start, script, at, vcr, before, t, answered, k + 1);
                }
            },
            CommitWorkModel::Coherency { partition, block } => {
                assert(k > at);
            },
            _ => {},
        }
    }
}

spec fn run_holds(
    start: CommitState,
    script: Seq<CommitStepModel>,
    at: int,
    vcr: Seq<u8>,
    before: TapeModel,
    told: Seq<TapeReply>,
) -> bool {
    let turn = commit_run(start, told);
    let t = commit_tape(start, before, told);
    let failed = exists|i: int| 0 <= i < told.len() && (#[trigger] told[i]) is Failed;
    if failed {
        turn.action is Failed
    } else {
        moved_on(turn, start, script, at, vcr, before, t, told.len())
    }
}

/// Nothing of the memory but the coherency information changes.
spec fn memory_kept(before: TapeModel, t: TapeModel) -> bool {
    let key = (0u8, VOLUME_CHANGE_REFERENCE);
    before.memory.dom().contains(key) ==> t.memory.dom().contains(key) && t.memory[key]
        == before.memory[key]
}

proof fn lemma_memory(
    before: TapeModel,
    s: CommitState,
    vcr: Seq<u8>,
    steps: Seq<CommitStepModel>,
)
    requires
        forall|i: int|
            0 <= i < steps.len() ==> ((#[trigger] steps[i]).work matches CommitWorkModel::Command(
                c,
            ) ==> !(c is WriteMam)),
    ensures
        memory_kept(before, steps_tape(before, s, vcr, steps)),
    decreases steps.len(),
{
    if steps.len() > 0 {
        let rest = steps.drop_last();
        assert forall|i: int| 0 <= i < rest.len() implies ((#[trigger] rest[i]).work
            matches CommitWorkModel::Command(c) ==> !(c is WriteMam)) by {
            assert(rest[i] == steps[i]);
        }
        lemma_memory(before, s, vcr, rest);
        assert(!(steps[steps.len() - 1].work matches CommitWorkModel::Command(c) && c is WriteMam));
        assert(VOLUME_CHANGE_REFERENCE != VOLUME_COHERENCY_INFORMATION);
    }
}

proof fn lemma_run(
    start: CommitState,
    at: int,
    vcr: Seq<u8>,
    before: TapeModel,
    told: Seq<TapeReply>,
)
    requires
        refers(start.rest, at),
        before.memory.dom().contains((0u8, VOLUME_CHANGE_REFERENCE)),
        before.memory[(0u8, VOLUME_CHANGE_REFERENCE)] == vcr,
        all_honest(start, before, told),
    ensures
        run_holds(start, start.rest, at, vcr, before, told),
    decreases told.len(),
{
    let script = start.rest;
    if told.len() == 0 {
        assert(script.skip(0) =~= script);
        assert(script.take(0) =~= Seq::<CommitStepModel>::empty());
        lemma_go(start, start, script, at, vcr, before, before, 0, 0);
    } else {
        let rest = told.drop_last();
        lemma_run(start, at, vcr, before, rest);
        let turn = commit_run(start, rest);
        let t = commit_tape(start, before, rest);
        let reply = told.last();
        assert forall|i: int| 0 <= i < rest.len() implies #[trigger] rest[i] == told[i] by {}
        if exists|i: int| 0 <= i < rest.len() && (#[trigger] rest[i]) is Failed {
            assert(false);
        } else if reply is Failed {
            assert(told[told.len() - 1] is Failed);
            assert(commit_run(start, told).action is Failed);
        } else {
            let k = script.len() - turn.state.rest.len();
            let command = turn.action->Command_0;
            let after = obeyed(t, command);
            if k - 1 == at {
                assert forall|i: int| 0 <= i < k - 1 implies ((#[trigger] script.take(k - 1)[i]).work
                    matches CommitWorkModel::Command(c) ==> !(c is WriteMam)) by {
                    assert(script.take(k - 1)[i] == script[i]);
                }
                lemma_memory(before, start, vcr, script.take(k - 1));
                match reply {
                    TapeReply::Bytes(bytes) => {
                        let s = CommitState { vcr: bytes@, ..turn.state };
                        lemma_go(
                            s,
                            start,
                            script,
                            at,
                            vcr,
                            before,
                            after,
                            told.len(),
                            k,
                        );
                    },
                    _ => {},
                }
            } else {
                let s = step_done(turn.state);
                lemma_go(s, start, script, at, vcr, before, after, told.len(), k);
            }
            if exists|i: int| 0 <= i < told.len() && (#[trigger] told[i]) is Failed {
                let i = choose|i: int| 0 <= i < told.len() && (#[trigger] told[i]) is Failed;
                if i < rest.len() {
                    assert(rest[i] is Failed);
                }
            }
        }
    }
}

proof fn lemma_steps_concat(
    t: TapeModel,
    s: CommitState,
    vcr: Seq<u8>,
    a: Seq<CommitStepModel>,
    b: Seq<CommitStepModel>,
)
    ensures
        steps_tape(t, s, vcr, a + b) == steps_tape(steps_tape(t, s, vcr, a), s, vcr, b),
    decreases b.len(),
{
    if b.len() == 0 {
        assert(a + b =~= a);
    } else {
        lemma_steps_concat(t, s, vcr, a, b.drop_last());
        assert((a + b).drop_last() =~= a + b.drop_last());
    }
}

proof fn lemma_records_written(
    t: TapeModel,
    s: CommitState,
    vcr: Seq<u8>,
    chunks: Seq<Seq<u8>>,
)
    requires
        t.block == t.parts[t.partition].len(),
        t.parts.dom().contains(t.partition),
    ensures
        steps_tape(t, s, vcr, record_steps(chunks)) == (TapeModel {
            parts: t.parts.insert(
                t.partition,
                t.parts[t.partition] + chunks.map_values(|c: Seq<u8>| BlockModel::Record(c)),
            ),
            block: t.block + chunks.len(),
            ..t
        }),
    decreases chunks.len(),
{
    let f = |c: Seq<u8>| BlockModel::Record(c);
    let out = steps_tape(t, s, vcr, record_steps(chunks));
    let blocks = t.parts[t.partition] + chunks.map_values(f);
    if chunks.len() == 0 {
        assert(blocks =~= t.parts[t.partition]);
        assert(t.parts.insert(t.partition, blocks) =~= t.parts);
    } else {
        let rest = chunks.drop_last();
        lemma_records_written(t, s, vcr, rest);
        assert(record_steps(chunks).drop_last() =~= record_steps(rest));
        let before = steps_tape(t, s, vcr, record_steps(rest));
        let some = t.parts[t.partition] + rest.map_values(f);
        assert(before.parts[t.partition] == some);
        assert(out == block_put(before, BlockModel::Record(chunks.last())));
        assert(some.take(before.block as int) =~= some);
        assert(blocks =~= some.push(BlockModel::Record(chunks.last())));
        assert(t.parts.insert(t.partition, some).insert(t.partition, blocks) =~= t.parts.insert(
            t.partition,
            blocks,
        ));
    }
}

proof fn lemma_index_written(
    t: TapeModel,
    s: CommitState,
    vcr: Seq<u8>,
    at: TapePos,
    text: Seq<char>,
    blocksize: nat,
)
    requires
        t.block <= t.parts[t.partition].len(),
        t.parts.dom().contains(t.partition),
    ensures
        steps_tape(t, s, vcr, index_steps(at, text, blocksize)) == (TapeModel {
            parts: t.parts.insert(
                t.partition,
                t.parts[t.partition].take(t.block as int) + marked(
                    chunks_of(encode_utf8(text), blocksize),
                ),
            ),
            block: t.block + chunks_of(encode_utf8(text), blocksize).len() + 2,
            ..t
        }),
{
    let chunks = chunks_of(encode_utf8(text), blocksize);
    let f = |c: Seq<u8>| BlockModel::Record(c);
    let mark = step(CommitWorkModel::Command(CommandModel::WriteFilemark));
    let first = seq![step_to(CommitWorkModel::Command(CommandModel::WriteFilemark), at)];
    let head = t.parts[t.partition].take(t.block as int);
    let one = steps_tape(t, s, vcr, first);
    assert(first.drop_last() =~= Seq::<CommitStepModel>::empty());
    assert(steps_tape(t, s, vcr, first.drop_last()) == t);
    assert(one == block_put(t, BlockModel::Mark));
    assert(one.parts[t.partition] == head.push(BlockModel::Mark));
    lemma_records_written(one, s, vcr, chunks);
    let two = steps_tape(one, s, vcr, record_steps(chunks));
    lemma_steps_concat(t, s, vcr, first, record_steps(chunks));
    let steps = index_steps(at, text, blocksize);
    assert(steps.drop_last() =~= first + record_steps(chunks));
    assert(steps.last() == mark);
    let out = steps_tape(t, s, vcr, steps);
    assert(out == block_put(two, BlockModel::Mark));
    let blocks = head.push(BlockModel::Mark) + chunks.map_values(f);
    assert(two.parts[t.partition] == blocks);
    assert(blocks.take(two.block as int) =~= blocks);
    assert(blocks.push(BlockModel::Mark) =~= head + marked(chunks));
    assert(out.parts =~= t.parts.insert(t.partition, head + marked(chunks)));
}

/// What the tape holds behind a commit.
pub open spec fn committed_tape(
    t: TapeModel,
    data_index: IndexModel,
    copy: IndexModel,
    write_block: u64,
    blocksize: nat,
    vcr: Seq<u8>,
) -> TapeModel {
    let d = data_index.self_location;
    let i = copy.self_location;
    let copied = chunks_of(encode_utf8(index_xml(copy)), blocksize);
    TapeModel {
        parts: t.parts.insert(
            d.partition,
            t.parts[d.partition].take(t.block as int) + marked(
                chunks_of(encode_utf8(index_xml(data_index)), blocksize),
            ),
        ).insert(i.partition, t.parts[i.partition].take(write_block as int) + marked(copied)),
        partition: i.partition,
        block: (write_block + copied.len() + 2) as nat,
        memory: t.memory.insert(
            (i.partition, VOLUME_COHERENCY_INFORMATION),
            commit_vci(vcr, copy.generation, i.startblock, copy.volume_uuid)->Ok_0,
        ).insert(
            (d.partition, VOLUME_COHERENCY_INFORMATION),
            commit_vci(vcr, copy.generation, d.startblock, copy.volume_uuid)->Ok_0,
        ),
    }
}

/// A tape to which a commit can be written: it stands in the data partition, which is not the
/// index partition, and both reach as far as what is to be kept.
pub open spec fn ready(t: TapeModel, data: u8, index: u8, write_block: u64) -> bool {
    &&& data != index
    &&& t.partition == data
    &&& t.parts.dom().contains(data)
    &&& t.parts.dom().contains(index)
    &&& t.block <= t.parts[data].len()
    &&& write_block <= t.parts[index].len()
    &&& t.memory.dom().contains((0u8, VOLUME_CHANGE_REFERENCE))
}

proof fn lemma_script_tape(
    t: TapeModel,
    s: CommitState,
    data_index: IndexModel,
    copy: IndexModel,
    write_block: u64,
    blocksize: nat,
    vcr: Seq<u8>,
)
    requires
        ready(
            t,
            data_index.self_location.partition,
            copy.self_location.partition,
            write_block,
        ),
        s.generation == copy.generation,
        s.volume_uuid == copy.volume_uuid,
    ensures
        steps_tape(t, s, vcr, commit_script(data_index, copy, write_block, blocksize))
            == committed_tape(t, data_index, copy, write_block, blocksize, vcr),
{
    let d = data_index.self_location;
    let i = copy.self_location;
    let one = data_index_steps(data_index, blocksize);
    let two = index_copy_steps(copy, write_block, blocksize);
    let three = coherency_steps(copy, data_index);
    // The index of the data partition.
    let report = seq![step(CommitWorkModel::Report(WritePhase::FinalizingDataIndex))];
    assert(report.drop_last() =~= Seq::<CommitStepModel>::empty());
    assert(steps_tape(t, s, vcr, report.drop_last()) == t);
    assert(steps_tape(t, s, vcr, report) == t);
    lemma_steps_concat(t, s, vcr, report, index_steps(d, index_xml(data_index), blocksize));
    lemma_index_written(t, s, vcr, d, index_xml(data_index), blocksize);
    let a = steps_tape(t, s, vcr, one);
    // Its copy.
    let head = two.take(3);
    assert(two =~= head + index_steps(i, index_xml(copy), blocksize));
    lemma_steps_concat(a, s, vcr, head, index_steps(i, index_xml(copy), blocksize));
    reveal_with_fuel(steps_tape, 8);
    assert(head.drop_last().drop_last().drop_last().len() == 0);
    let located = steps_tape(a, s, vcr, head);
    assert(located == (TapeModel { partition: i.partition, block: write_block as nat, ..a }));
    assert(a.parts[i.partition] == t.parts[i.partition]);
    lemma_index_written(located, s, vcr, i, index_xml(copy), blocksize);
    let b = steps_tape(a, s, vcr, two);
    // The coherency information.
    let c = steps_tape(b, s, vcr, three);
    assert(three.len() == 7);
    assert(three.drop_last().drop_last().drop_last().drop_last().drop_last().drop_last().drop_last().len()
        == 0);
    assert(c.parts == b.parts);
    assert(c.memory =~= committed_tape(t, data_index, copy, write_block, blocksize, vcr).memory);
    lemma_steps_concat(t, s, vcr, one, two);
    lemma_steps_concat(t, s, vcr, one + two, three);
    assert(c =~= committed_tape(t, data_index, copy, write_block, blocksize, vcr));
}

proof fn lemma_refers(
    data_index: IndexModel,
    copy: IndexModel,
    write_block: u64,
    blocksize: nat,
)
    ensures
        ({
            let at = data_index_steps(data_index, blocksize).len() + index_copy_steps(
                copy,
                write_block,
                blocksize,
            ).len() + 3;
            refers(commit_script(data_index, copy, write_block, blocksize), at as int)
        }),
{
    let one = data_index_steps(data_index, blocksize);
    let two = index_copy_steps(copy, write_block, blocksize);
    let three = coherency_steps(copy, data_index);
    let script = commit_script(data_index, copy, write_block, blocksize);
    assert forall|i: int| 0 <= i < script.len() implies #[trigger] script[i] == (if i < one.len() {
        one[i]
    } else if i < one.len() + two.len() {
        two[i - one.len()]
    } else {
        three[i - one.len() - two.len()]
    }) by {}
    assert(script[(one.len() + two.len() + 3) as int] == three[3]);
}

/// A commit that ends well has written both indexes and nothing else: the data partition
/// goes on with a file mark, the records of its index and a file mark; the index partition
/// holds, behind what is in front of the place that was given, the same of the copy; every
/// other partition is as it was. The memory tells the coherency information of both, with
/// the reference that the memory held, and keeps all else. Whatever command fails, the
/// commit fails; and one of which every command is carried out ends well.
pub proof fn finished_commit_is_on_the_tape(
    data_index: IndexModel,
    copy: IndexModel,
    write_block: u64,
    blocksize: nat,
    progress: WriteProgress,
    options: WriteOptions,
    t: TapeModel,
    told: Seq<TapeReply>,
)
    requires
        ready(
            t,
            data_index.self_location.partition,
            copy.self_location.partition,
            write_block,
        ),
        all_honest(
            commit_start(data_index, copy, write_block, blocksize, progress, options),
            t,
            told,
        ),
    ensures
        ({
            let start = commit_start(data_index, copy, write_block, blocksize, progress, options);
            let vcr = t.memory[(0u8, VOLUME_CHANGE_REFERENCE)];
            let action = commit_run(start, told).action;
            let failed = exists|i: int| 0 <= i < told.len() && (#[trigger] told[i]) is Failed;
            let known = forall|block: u64|
                block == data_index.self_location.startblock || block
                    == copy.self_location.startblock ==> #[trigger] commit_vci(
                    vcr,
                    copy.generation,
                    block,
                    copy.volume_uuid,
                ) is Ok;
            &&& action is Finished ==> commit_tape(start, t, told) == committed_tape(
                t,
                data_index,
                copy,
                write_block,
                blocksize,
                vcr,
            )
            &&& failed ==> action is Failed
            &&& !failed && goes_through(options) && known ==> !(action is Failed) && (
            action is Finished <==> told.len() == waits(start.rest))
        }),
{
    let start = commit_start(data_index, copy, write_block, blocksize, progress, options);
    let vcr = t.memory[(0u8, VOLUME_CHANGE_REFERENCE)];
    let at: int = (data_index_steps(data_index, blocksize).len() + index_copy_steps(
        copy,
        write_block,
        blocksize,
    ).len() + 3) as int;
    lemma_refers(data_index, copy, write_block, blocksize);
    lemma_run(start, at, vcr, t, told);
    lemma_script_tape(t, start, data_index, copy, write_block, blocksize, vcr);
    lemma_coherency_places(data_index, copy, write_block, blocksize);
    let turn = commit_run(start, told);
    if turn.action is Command {
        let k = start.rest.len() - turn.state.rest.len();
        lemma_waits(start.rest, k);
    }
}

proof fn lemma_waits(steps: Seq<CommitStepModel>, k: int)
    requires
        0 <= k <= steps.len(),
    ensures
        waits(steps.take(k)) <= waits(steps),
    decreases steps.len() - k,
{
    if k < steps.len() {
        lemma_waits(steps, k + 1);
        assert(steps.take(k + 1).drop_last() =~= steps.take(k));
    } else {
        assert(steps.take(k) =~= steps);
    }
}

proof fn lemma_coherency_places(
    data_index: IndexModel,
    copy: IndexModel,
    write_block: u64,
    blocksize: nat,
)
    ensures
        forall|i: int|
            0 <= i < commit_script(data_index, copy, write_block, blocksize).len() ==> ((
            #[trigger] commit_script(data_index, copy, write_block, blocksize)[i]).work
                matches CommitWorkModel::Coherency { partition, block } ==> block
                == data_index.self_location.startblock || block == copy.self_location.startblock),
{
    let one = data_index_steps(data_index, blocksize);
    let two = index_copy_steps(copy, write_block, blocksize);
    let three = coherency_steps(copy, data_index);
    let script = commit_script(data_index, copy, write_block, blocksize);
    assert forall|i: int| 0 <= i < script.len() implies #[trigger] script[i] == (if i < one.len() {
        one[i]
    } else if i < one.len() + two.len() {
        two[i - one.len()]
    } else {
        three[i - one.len() - two.len()]
    }) by {}
}

/// The records of an index fit in a block, none is empty, and all but the last are full.
pub proof fn chunks_fit(bytes: Seq<u8>, size: nat, i: int)
    requires
        size > 0,
        0 <= i < chunks_of(bytes, size).len(),
    ensures
        0 < chunks_of(bytes, size)[i].len() <= size,
        i < chunks_of(bytes, size).len() - 1 ==> chunks_of(bytes, size)[i].len() == size,
    decreases bytes.len(),
{
    if bytes.len() > size {
        let rest = bytes.subrange(size as int, bytes.len() as int);
        if i > 0 {
            chunks_fit(rest, size, i - 1);
        }
    }
}

/// The phase that was reported last.
pub open spec fn reported(steps: Seq<CommitStepModel>) -> Option<WritePhase>
    decreases steps.len(),
{
    if steps.len() == 0 {
        None
    } else {
        match steps.last().work {
            CommitWorkModel::Report(phase) => Some(phase),
            _ => reported(steps.drop_last()),
        }
    }
}

proof fn lemma_reported(steps: Seq<CommitStepModel>, from: int, n: int)
    requires
        0 <= from < n <= steps.len(),
        steps[from].work is Report,
        forall|i: int| from < i < n ==> !((#[trigger] steps[i]).work is Report),
    ensures
        reported(steps.take(n)) == Some(steps[from].work->Report_0),
    decreases n,
{
    assert(steps.take(n).last() == steps[n - 1]);
    if n - 1 > from {
        assert(!(steps[n - 1].work is Report));
        assert(steps.take(n).drop_last() =~= steps.take(n - 1));
        lemma_reported(steps, from, n - 1);
    }
}

/// What a failure of a commit says of the tape is so: where a step fails before the index of
/// the data partition is whole, the data counts as incomplete; where that index is whole and
/// the copy is not, only the data index counts as written; and both count as written where
/// both are whole.
pub proof fn failed_commit_tells_what_is_written(
    data_index: IndexModel,
    copy: IndexModel,
    write_block: u64,
    blocksize: nat,
    i: int,
    event: EventModel,
    message: Seq<char>,
)
    requires
        0 <= i < commit_script(data_index, copy, write_block, blocksize).len(),
        !(commit_script(data_index, copy, write_block, blocksize)[i].work is Report),
        reported(commit_script(data_index, copy, write_block, blocksize).take(i)) == Some(
            event.phase,
        ),
        !contains_spec(message, "[state:C4]"@),
    ensures
        ({
            let state = failure_spec(Some(event), message).commit_state;
            let d = data_index_steps(data_index, blocksize).len();
            let c = d + index_copy_steps(copy, write_block, blocksize).len();
            &&& state is DataIncomplete <==> i < d
            &&& state is DataIndexOnly <==> d <= i < c
            &&& state is IndexesWritten <==> c <= i
            &&& failure_spec(Some(event), message).requires_diagnosis
            &&& !failure_spec(Some(event), message).safe_to_retry
        }),
{
    let script = commit_script(data_index, copy, write_block, blocksize);
    let one = data_index_steps(data_index, blocksize);
    let two = index_copy_steps(copy, write_block, blocksize);
    let three = coherency_steps(copy, data_index);
    let d = one.len() as int;
    let c = d + two.len();
    assert forall|j: int| 0 <= j < script.len() implies #[trigger] script[j] == (if j < d {
        one[j]
    } else if j < c {
        two[j - d]
    } else {
        three[j - c]
    }) by {}
    assert forall|j: int| 0 <= j < script.len() implies ((#[trigger] script[j]).work is Report
        <==> j == 0 || j == d || j == c) by {}
    if i < d {
        lemma_reported(script, 0, i);
    } else if i < c {
        lemma_reported(script, d, i);
    } else {
        lemma_reported(script, c, i);
    }
}

} // verus!
