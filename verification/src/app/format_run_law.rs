//! What a format leaves on the tape.
use vstd::prelude::*;
use vstd::utf8::*;

use super::flow::{CommandModel, TapeReply};
use super::format::{
    attribute_steps, first_digits, format_advance, format_fault, format_next, format_script,
    format_start, initial_index, initial_label, initial_vci, note, partition_steps, upper_hex,
    FormatActionModel, FormatKindModel, FormatNote, FormatPhase, FormatRequest, FormatState,
    FormatStepModel, FormatTurn, FormatWait,
};
use super::format_law::new_volume_reads_back;
use super::probe::{LatestActionModel, ProbeActionModel};
use super::probe_law::{
    blocks_of, holds_index, label_is_found, label_run, label_told, latest_run,
    newest_index_is_found, partition_told,
};
use super::round_trip::joined_records;
use super::tape_law::{block_put, honest, obeyed, BlockModel, TapeModel};
use crate::device::tape::MamAttributeFormat;
use crate::ltfs::index_law::solid;
use crate::ltfs::index_xml::index_xml;
use crate::ltfs::label::{ansi_record, is_barcode, label_xml};
use crate::ltfs::mam::{
    host_attributes, AttributeModel, VOLUME_CHANGE_REFERENCE, VOLUME_COHERENCY_INFORMATION,
};
use crate::ltfs::xml::{read_plainly, xml_events};
use crate::text::trimmed;

verus! {

/// A format once it has been told so much.
pub open spec fn format_run(start: FormatState, told: Seq<TapeReply>) -> FormatTurn
    decreases told.len(),
{
    if told.len() == 0 {
        format_advance(start)
    } else {
        format_next(format_run(start, told.drop_last()).state, told.last())
    }
}

/// The tape once the commands of a format have been carried out that did not fail.
pub open spec fn format_tape(start: FormatState, t: TapeModel, told: Seq<TapeReply>) -> TapeModel
    decreases told.len(),
{
    if told.len() == 0 {
        t
    } else {
        let before = format_tape(start, t, told.drop_last());
        match format_run(start, told.drop_last()).action {
            FormatActionModel::Command(command) => if told.last() is Failed {
                before
            } else {
                obeyed(before, command)
            },
            _ => before,
        }
    }
}

/// The drive has answered every command of a format honestly.
pub open spec fn all_honest(start: FormatState, t: TapeModel, told: Seq<TapeReply>) -> bool
    decreases told.len(),
{
    told.len() == 0 || (all_honest(start, t, told.drop_last()) && (format_run(
        start,
        told.drop_last(),
    ).action matches FormatActionModel::Command(command) && honest(
        format_tape(start, t, told.drop_last()),
        command,
        told.last(),
    )))
}

/// A step that may fail: an attribute that is not required.
pub open spec fn may_fail(step: FormatStepModel) -> bool {
    step.kind matches FormatKindModel::Attribute { required, .. } && !required
}

/// A step failed that may not.
pub open spec fn refused(script: Seq<FormatStepModel>, told: Seq<TapeReply>) -> bool {
    exists|i: int|
        0 <= i < told.len() && i < script.len() && (#[trigger] told[i]) is Failed && !may_fail(
            script[i],
        )
}

/// What the steps do to the blocks of the tape.
spec fn steps_tape(t: TapeModel, steps: Seq<FormatStepModel>) -> TapeModel
    decreases steps.len(),
{
    if steps.len() == 0 {
        t
    } else {
        match steps.last().kind {
            FormatKindModel::Command(command) => obeyed(steps_tape(t, steps.drop_last()), command),
            _ => steps_tape(t, steps.drop_last()),
        }
    }
}

/// The command of a step, where the reference is known.
spec fn command_of(kind: FormatKindModel, vcr: Seq<u8>, uuid: Seq<char>) -> CommandModel {
    match kind {
        FormatKindModel::Command(command) => command,
        FormatKindModel::Attribute { id, format, value, .. } => CommandModel::WriteMam {
            partition: 0,
            id,
            format,
            value,
        },
        FormatKindModel::Position { .. } => CommandModel::ReadPosition,
        FormatKindModel::Reference => CommandModel::ReadMam {
            partition: 0,
            id: VOLUME_CHANGE_REFERENCE,
        },
        FormatKindModel::Coherency { partition } => CommandModel::WriteMam {
            partition,
            id: VOLUME_COHERENCY_INFORMATION,
            format: MamAttributeFormat::Binary,
            value: initial_vci(vcr, uuid)->Ok_0,
        },
    }
}

/// The partition of a step.
spec fn place_of(kind: FormatKindModel) -> u8 {
    match kind {
        FormatKindModel::Position { partition } => partition,
        FormatKindModel::Coherency { partition } => partition,
        _ => 0,
    }
}

spec fn wait_of(kind: FormatKindModel) -> FormatWait {
    match kind {
        FormatKindModel::Attribute { id, required, .. } => FormatWait::Attribute { id, required },
        FormatKindModel::Position { partition } => FormatWait::Position { partition },
        FormatKindModel::Reference => FormatWait::Reference,
        _ => FormatWait::Done,
    }
}

/// A script whose attributes differ, that reads the reference before it needs it, and that
/// asks for the position where the tape stands in block 5.
#[verifier::opaque]
spec fn in_order(script: Seq<FormatStepModel>, at: int, t: TapeModel) -> bool {
    &&& 0 <= at < script.len()
    &&& script[at].kind is Reference
    &&& forall|i: int|
        0 <= i < script.len() && i != at ==> !((#[trigger] script[i]).kind is Reference)
    &&& forall|i: int| 0 <= i <= at ==> !((#[trigger] script[i]).kind is Coherency)
    &&& forall|i: int|
        0 <= i < script.len() ==> ((#[trigger] script[i]).kind matches FormatKindModel::Command(c)
            ==> !(c is ReadMam || c is WriteMam || c is ReadPosition))
    &&& forall|i: int|
        0 <= i < script.len() ==> ((#[trigger] script[i]).kind
            matches FormatKindModel::Attribute { id, .. } ==> id != VOLUME_CHANGE_REFERENCE && id
            != VOLUME_COHERENCY_INFORMATION)
    &&& forall|i: int, j: int|
        0 <= i < j < script.len() && (#[trigger] script[i]).kind is Attribute && (
        #[trigger] script[j]).kind is Attribute ==> script[i].kind->id != script[j].kind->id
    &&& forall|i: int, j: int|
        0 <= i < j < script.len() && (#[trigger] script[i]).kind is Coherency && (
        #[trigger] script[j]).kind is Coherency ==> place_of(script[i].kind)
            != place_of(script[j].kind)
    &&& forall|i: int|
        0 <= i < script.len() && (#[trigger] script[i]).kind is Position ==> {
            let there = steps_tape(t, script.take(i));
            there.block == 5 && there.partition == place_of(script[i].kind)
        }
}

/// What the memory holds once the first `n` steps are behind.
#[verifier::opaque]
spec fn remembered(
    t: TapeModel,
    script: Seq<FormatStepModel>,
    told: Seq<TapeReply>,
    vcr: Seq<u8>,
    uuid: Seq<char>,
) -> bool {
    &&& t.memory.dom().contains((0u8, VOLUME_CHANGE_REFERENCE))
    &&& t.memory[(0u8, VOLUME_CHANGE_REFERENCE)] == vcr
    &&& forall|i: int|
        0 <= i < told.len() && i < script.len() && (#[trigger] script[i]).kind is Attribute
            && !(told[i] is Failed) ==> t.memory.dom().contains((0u8, script[i].kind->id))
            && t.memory[(0u8, script[i].kind->id)] == script[i].kind->value
    &&& forall|i: int|
        0 <= i < told.len() && i < script.len() && (#[trigger] script[i]).kind is Coherency ==> {
            let key = (place_of(script[i].kind), VOLUME_COHERENCY_INFORMATION);
            t.memory.dom().contains(key) && t.memory[key] == initial_vci(vcr, uuid)->Ok_0
        }
}

spec fn same_blocks(a: TapeModel, b: TapeModel) -> bool {
    a.parts == b.parts && a.partition == b.partition && a.block == b.block
}

spec fn moved_on(
    turn: FormatTurn,
    start: FormatState,
    at: int,
    vcr: Seq<u8>,
    n: nat,
) -> bool {
    let script = start.rest;
    &&& turn.state.volume_uuid == start.volume_uuid
    &&& match turn.action {
        FormatActionModel::Finished(Ok(_)) => n == script.len(),
        FormatActionModel::Finished(Err(_)) => initial_vci(vcr, start.volume_uuid) is Err,
        FormatActionModel::Command(c) => {
            &&& n < script.len()
            &&& turn.state.rest == script.skip(n as int + 1)
            &&& c == command_of(script[n as int].kind, vcr, start.volume_uuid)
            &&& turn.state.wait == wait_of(script[n as int].kind)
            &&& n > at ==> turn.state.vcr == vcr
            &&& script[n as int].kind is Coherency ==> initial_vci(vcr, start.volume_uuid) is Ok
        },
    }
}

proof fn lemma_advance(s: FormatState, start: FormatState, at: int, vcr: Seq<u8>, n: nat, t: TapeModel)
    requires
        in_order(start.rest, at, t),
        n <= start.rest.len(),
        s.rest == start.rest.skip(n as int),
        s.volume_uuid == start.volume_uuid,
        n > at ==> s.vcr == vcr,
    ensures
        moved_on(format_advance(s), start, at, vcr, n),
{
    reveal(in_order);
    let script = start.rest;
    if n < script.len() {
        assert(s.rest[0] == script[n as int]);
        assert(s.rest.drop_first() =~= script.skip(n as int + 1));
    }
}

spec fn run_holds(
    start: FormatState,
    at: int,
    vcr: Seq<u8>,
    before: TapeModel,
    told: Seq<TapeReply>,
) -> bool {
    let script = start.rest;
    let turn = format_run(start, told);
    let t = format_tape(start, before, told);
    if refused(script, told) {
        turn.action matches FormatActionModel::Finished(Err(_))
    } else {
        &&& moved_on(turn, start, at, vcr, told.len())
        &&& told.len() <= script.len()
        &&& same_blocks(t, steps_tape(before, script.take(told.len() as int)))
        &&& remembered(t, script, told, vcr, start.volume_uuid)
    }
}

proof fn lemma_step_kind(script: Seq<FormatStepModel>, at: int, t: TapeModel, i: int)
    requires
        in_order(script, at, t),
        0 <= i < script.len(),
    ensures
        script[i].kind is Reference <==> i == at,
        script[i].kind matches FormatKindModel::Command(c) ==> !(c is ReadMam || c is WriteMam
            || c is ReadPosition),
        script[i].kind is Position ==> steps_tape(t, script.take(i)).block == 5 && steps_tape(
            t,
            script.take(i),
        ).partition == place_of(script[i].kind),
{
    reveal(in_order);
}

proof fn lemma_remembered(
    script: Seq<FormatStepModel>,
    at: int,
    told: Seq<TapeReply>,
    before: TapeModel,
    t: TapeModel,
    vcr: Seq<u8>,
    uuid: Seq<char>,
)
    requires
        in_order(script, at, before),
        0 < told.len() <= script.len(),
        remembered(t, script, told.drop_last(), vcr, uuid),
    ensures
        ({
            let command = command_of(script[told.len() - 1].kind, vcr, uuid);
            &&& !(told.last() is Failed) ==> remembered(
                obeyed(t, command),
                script,
                told,
                vcr,
                uuid,
            )
            &&& told.last() is Failed && !(script[told.len() - 1].kind is Coherency)
                ==> remembered(t, script, told, vcr, uuid)
        }),
        t.memory.dom().contains((0u8, VOLUME_CHANGE_REFERENCE)),
        t.memory[(0u8, VOLUME_CHANGE_REFERENCE)] == vcr,
{
    reveal(in_order);
    reveal(remembered);
    let rest = told.drop_last();
    assert forall|i: int| 0 <= i < rest.len() implies #[trigger] rest[i] == told[i] by {}
    let n = told.len() - 1;
    let after = obeyed(t, command_of(script[n].kind, vcr, uuid));
    assert(VOLUME_CHANGE_REFERENCE != VOLUME_COHERENCY_INFORMATION);
    assert forall|i: int|
        0 <= i < n && (#[trigger] script[i]).kind is Attribute && !(told[i]
            is Failed) implies after.memory.dom().contains((0u8, script[i].kind->id))
        && after.memory[(0u8, script[i].kind->id)] == script[i].kind->value by {
        assert(!(rest[i] is Failed));
    }
}

proof fn lemma_next(
    start: FormatState,
    at: int,
    vcr: Seq<u8>,
    before: TapeModel,
    n: nat,
    turn: FormatTurn,
    reply: TapeReply,
    t: TapeModel,
)
    requires
        in_order(start.rest, at, before),
        moved_on(turn, start, at, vcr, n),
        turn.action is Command,
        honest(t, turn.action->Command_0, reply),
        same_blocks(t, steps_tape(before, start.rest.take(n as int))),
        t.memory[(0u8, VOLUME_CHANGE_REFERENCE)] == vcr,
        reply is Failed ==> may_fail(start.rest[n as int]),
    ensures
        moved_on(format_next(turn.state, reply), start, at, vcr, n + 1),
{
    let script = start.rest;
    let step = script[n as int];
    lemma_step_kind(script, at, before, n as int);
    match step.kind {
        FormatKindModel::Reference => {
            match reply {
                TapeReply::Bytes(bytes) => {
                    let s = FormatState { vcr: bytes@, ..turn.state };
                    lemma_advance(s, start, at, vcr, n + 1, before);
                },
                _ => {},
            }
        },
        FormatKindModel::Attribute { id, .. } => {
            match reply {
                TapeReply::Failed(message) => {
                    let s = FormatState {
                        warnings: turn.state.warnings.push(
                            "可选 MAM attribute 0x"@ + upper_hex(id) + " 不受支持："@ + message@,
                        ),
                        ..turn.state
                    };
                    lemma_advance(s, start, at, vcr, n + 1, before);
                },
                _ => {
                    lemma_advance(turn.state, start, at, vcr, n + 1, before);
                },
            }
        },
        _ => {
            lemma_advance(turn.state, start, at, vcr, n + 1, before);
        },
    }
}

#[verifier::rlimit(60)]
proof fn lemma_run(
    start: FormatState,
    at: int,
    vcr: Seq<u8>,
    before: TapeModel,
    told: Seq<TapeReply>,
)
    requires
        0 <= at,
        in_order(start.rest, at, before),
        before.memory.dom().contains((0u8, VOLUME_CHANGE_REFERENCE)),
        before.memory[(0u8, VOLUME_CHANGE_REFERENCE)] == vcr,
        all_honest(start, before, told),
    ensures
        run_holds(start, at, vcr, before, told),
    decreases told.len(),
{
    let script = start.rest;
    if told.len() == 0 {
        assert(script.skip(0) =~= script);
        assert(script.take(0) =~= Seq::<FormatStepModel>::empty());
        lemma_advance(start, start, at, vcr, 0, before);
        reveal(remembered);
    } else {
        let rest = told.drop_last();
        lemma_run(start, at, vcr, before, rest);
        let n = rest.len();
        let turn = format_run(start, rest);
        let t = format_tape(start, before, rest);
        let reply = told.last();
        assert forall|i: int| 0 <= i < rest.len() implies #[trigger] rest[i] == told[i] by {}
        if refused(script, rest) {
            assert(false);
        }
        let step = script[n as int];
        let after = format_tape(start, before, told);
        assert(script.take(n as int + 1).drop_last() =~= script.take(n as int));
        assert(script.take(n as int + 1).last() == step);
        lemma_remembered(script, at, told, before, t, vcr, start.volume_uuid);
        lemma_step_kind(script, at, before, n as int);
        if reply is Failed && !may_fail(step) {
            assert(told[n as int] is Failed);
            assert(refused(script, told));
        } else {
            if refused(script, told) {
                let i = choose|i: int|
                    0 <= i < told.len() && i < script.len() && (#[trigger] told[i]) is Failed
                        && !may_fail(script[i]);
                assert(i < n);
                assert(rest[i] is Failed);
            }
            lemma_next(start, at, vcr, before, n, turn, reply, t);
            assert(moved_on(format_run(start, told), start, at, vcr, told.len()));
            assert(same_blocks(after, steps_tape(before, script.take(n as int + 1))));
        }
    }
}

proof fn lemma_steps_concat(t: TapeModel, a: Seq<FormatStepModel>, b: Seq<FormatStepModel>)
    ensures
        steps_tape(t, a + b) == steps_tape(steps_tape(t, a), b),
    decreases b.len(),
{
    if b.len() == 0 {
        assert(a + b =~= a);
    } else {
        lemma_steps_concat(t, a, b.drop_last());
        assert((a + b).drop_last() =~= a + b.drop_last());
    }
}

proof fn lemma_attributes_tape(t: TapeModel, list: Seq<AttributeModel>)
    ensures
        steps_tape(t, attribute_steps(list)) == t,
    decreases list.len(),
{
    if list.len() > 0 {
        lemma_attributes_tape(t, list.drop_last());
        assert(attribute_steps(list).drop_last() =~= attribute_steps(list.drop_last()));
    }
}

/// The blocks of a partition of a new volume: VOL1, the label and the index, each behind or
/// between its file marks.
pub open spec fn volume_blocks(ansi: Seq<u8>, label: Seq<char>, index: Seq<char>) -> Seq<
    BlockModel,
> {
    seq![
        BlockModel::Record(ansi),
        BlockModel::Mark,
        BlockModel::Record(encode_utf8(label)),
        BlockModel::Mark,
        BlockModel::Mark,
        BlockModel::Record(encode_utf8(index)),
        BlockModel::Mark,
    ]
}

proof fn lemma_put(t: TapeModel, blocks: Seq<BlockModel>, block: BlockModel)
    requires
        t.parts.dom().contains(t.partition),
        t.parts[t.partition] == blocks,
        t.block == blocks.len(),
    ensures
        block_put(t, block).parts =~= t.parts.insert(t.partition, blocks.push(block)),
        block_put(t, block).block == blocks.len() + 1,
{
    assert(blocks.take(t.block as int) =~= blocks);
}

proof fn lemma_partition_tape(
    t: TapeModel,
    event: FormatNote,
    partition: u8,
    ansi: Seq<u8>,
    label: Seq<char>,
    index: Seq<char>,
)
    requires
        t.parts.dom().contains(partition),
    ensures
        ({
            let steps = partition_steps(event, partition, ansi, label, index);
            let out = steps_tape(t, steps);
            &&& out.parts =~= t.parts.insert(partition, volume_blocks(ansi, label, index))
            &&& steps_tape(t, steps.take(6)).block == 5
            &&& steps_tape(t, steps.take(6)).partition == partition
        }),
{
    let steps = partition_steps(event, partition, ansi, label, index);
    let all = volume_blocks(ansi, label, index);
    let t1 = obeyed(t, CommandModel::Locate { partition, block: 0 });
    let t2 = block_put(t1, all[0]);
    let t3 = block_put(t2, all[1]);
    let t4 = block_put(t3, all[2]);
    let t5 = block_put(t4, all[3]);
    let t6 = block_put(t5, all[4]);
    let t8 = block_put(t6, all[5]);
    let t9 = block_put(t8, all[6]);
    assert(steps.take(0).len() == 0);
    assert(steps.take(1).drop_last() =~= steps.take(0));
    assert(steps_tape(t, steps.take(0)) == t);
    assert(steps.take(1).last() == steps[0]);
    assert(steps_tape(t, steps.take(1)) == t1);
    assert(steps.take(2).drop_last() =~= steps.take(1));
    assert(steps.take(2).last() == steps[1]);
    assert(steps_tape(t, steps.take(2)) == t2);
    assert(steps.take(3).drop_last() =~= steps.take(2));
    assert(steps.take(3).last() == steps[2]);
    assert(steps_tape(t, steps.take(3)) == t3);
    assert(steps.take(4).drop_last() =~= steps.take(3));
    assert(steps.take(4).last() == steps[3]);
    assert(steps_tape(t, steps.take(4)) == t4);
    assert(steps.take(5).drop_last() =~= steps.take(4));
    assert(steps.take(5).last() == steps[4]);
    assert(steps_tape(t, steps.take(5)) == t5);
    assert(steps.take(6).drop_last() =~= steps.take(5));
    assert(steps.take(6).last() == steps[5]);
    assert(steps_tape(t, steps.take(6)) == t6);
    assert(steps.take(7).drop_last() =~= steps.take(6));
    assert(steps.take(7).last() == steps[6]);
    assert(steps_tape(t, steps.take(7)) == t6);
    assert(steps.take(8).drop_last() =~= steps.take(7));
    assert(steps.take(8).last() == steps[7]);
    assert(steps_tape(t, steps.take(8)) == t8);
    assert(steps.take(9).drop_last() =~= steps.take(8));
    assert(steps.take(9).last() == steps[8]);
    assert(steps_tape(t, steps.take(9)) == t9);
    assert(steps.take(9) =~= steps);
    assert(t1.parts[partition].take(0) =~= all.take(0));
    assert(t2.parts[partition] =~= all.take(1));
    lemma_put(t2, all.take(1), all[1]);
    assert(t3.parts[partition] =~= all.take(2));
    lemma_put(t3, all.take(2), all[2]);
    assert(t4.parts[partition] =~= all.take(3));
    lemma_put(t4, all.take(3), all[3]);
    assert(t5.parts[partition] =~= all.take(4));
    lemma_put(t5, all.take(4), all[4]);
    assert(t6.parts[partition] =~= all.take(5));
    lemma_put(t6, all.take(5), all[5]);
    assert(t8.parts[partition] =~= all.take(6));
    lemma_put(t8, all.take(6), all[6]);
    assert(t9.parts[partition] =~= all);
    assert(t9.parts =~= t.parts.insert(partition, all));
}

/// The steps of a format, group by group.
spec fn groups(r: FormatRequest, uuid: Seq<char>, time: Seq<char>, version: Seq<char>) -> (
    Seq<FormatStepModel>,
    Seq<FormatStepModel>,
    Seq<FormatStepModel>,
    Seq<FormatStepModel>,
    Seq<FormatStepModel>,
) {
    (
        format_script(r, uuid, time, version).take(3),
        attribute_steps(
            host_attributes(r.volume_name, r.barcode, uuid, version, first_digits(time, 12)),
        ),
        partition_steps(
            note(FormatPhase::WritingDataPartition, "写入 data 分区 label/index"@),
            1,
            ansi_record(r.barcode),
            label_xml(initial_label(r, uuid, time, version, 1)),
            index_xml(initial_index(r, uuid, time, version, 1)),
        ),
        partition_steps(
            note(FormatPhase::WritingIndexPartition, "写入 index 分区 label/index"@),
            0,
            ansi_record(r.barcode),
            label_xml(initial_label(r, uuid, time, version, 0)),
            index_xml(initial_index(r, uuid, time, version, 0)),
        ),
        format_script(r, uuid, time, version).subrange(30, 34),
    )
}

proof fn lemma_groups(r: FormatRequest, uuid: Seq<char>, time: Seq<char>, version: Seq<char>)
    ensures
        ({
            let script = format_script(r, uuid, time, version);
            let (a, b, one, zero, last) = groups(r, uuid, time, version);
            &&& script.len() == 34
            &&& b.len() == 9
            &&& script == a + b + one + zero + last
            &&& script.take(18) == (a + b) + one.take(6)
            &&& script.take(27) == (a + b + one) + zero.take(6)
            &&& script.subrange(3, 12) == b
            &&& forall|i: int| 0 <= i < 3 ==> #[trigger] script[i] == a[i]
            &&& forall|i: int| 3 <= i < 12 ==> #[trigger] script[i] == b[i - 3]
            &&& forall|i: int| 12 <= i < 21 ==> #[trigger] script[i] == one[i - 12]
            &&& forall|i: int| 21 <= i < 30 ==> #[trigger] script[i] == zero[i - 21]
            &&& forall|i: int| 30 <= i < 34 ==> #[trigger] script[i] == last[i - 30]
        }),
{
    let script = format_script(r, uuid, time, version);
    let (a, b, one, zero, last) = groups(r, uuid, time, version);
    assert(script =~= a + b + one + zero + last);
    assert(script.take(18) =~= (a + b) + one.take(6));
    assert(script.take(27) =~= (a + b + one) + zero.take(6));
    assert(script.subrange(3, 12) =~= b);
}

proof fn lemma_script_tape(
    r: FormatRequest,
    uuid: Seq<char>,
    time: Seq<char>,
    version: Seq<char>,
    t: TapeModel,
)
    ensures
        ({
            let script = format_script(r, uuid, time, version);
            &&& steps_tape(t, script).parts == map![
                0u8 => new_blocks(r, uuid, time, version, 0),
                1u8 => new_blocks(r, uuid, time, version, 1),
            ]
            &&& steps_tape(t, script.take(18)).block == 5
            &&& steps_tape(t, script.take(18)).partition == 1
            &&& steps_tape(t, script.take(27)).block == 5
            &&& steps_tape(t, script.take(27)).partition == 0
        }),
{
    lemma_groups(r, uuid, time, version);
    let script = format_script(r, uuid, time, version);
    let (a, b, one, zero, last) = groups(r, uuid, time, version);
    let list = host_attributes(r.volume_name, r.barcode, uuid, version, first_digits(time, 12));
    let ta = steps_tape(t, a);
    lemma_first_steps(r, uuid, time, version, t);
    lemma_steps_concat(t, a, b);
    lemma_attributes_tape(ta, list);
    lemma_steps_concat(t, a + b, one);
    lemma_partition_tape(
        ta,
        note(FormatPhase::WritingDataPartition, "写入 data 分区 label/index"@),
        1,
        ansi_record(r.barcode),
        label_xml(initial_label(r, uuid, time, version, 1)),
        index_xml(initial_index(r, uuid, time, version, 1)),
    );
    let t1 = steps_tape(ta, one);
    lemma_steps_concat(t, a + b + one, zero);
    lemma_partition_tape(
        t1,
        note(FormatPhase::WritingIndexPartition, "写入 index 分区 label/index"@),
        0,
        ansi_record(r.barcode),
        label_xml(initial_label(r, uuid, time, version, 0)),
        index_xml(initial_index(r, uuid, time, version, 0)),
    );
    let t0 = steps_tape(t1, zero);
    lemma_steps_concat(t, a + b + one + zero, last);
    lemma_last_steps(r, uuid, time, version, t0);
    lemma_steps_concat(t, a + b, one.take(6));
    lemma_steps_concat(t, a + b + one, zero.take(6));
    assert(t0.parts =~= map![
        0u8 => new_blocks(r, uuid, time, version, 0),
        1u8 => new_blocks(r, uuid, time, version, 1),
    ]);
}

proof fn lemma_first_steps(
    r: FormatRequest,
    uuid: Seq<char>,
    time: Seq<char>,
    version: Seq<char>,
    t: TapeModel,
)
    ensures
        steps_tape(t, format_script(r, uuid, time, version).take(3)).parts == map![
            0u8 => Seq::<BlockModel>::empty(),
            1u8 => Seq::<BlockModel>::empty(),
        ],
{
    let script = format_script(r, uuid, time, version);
    assert(script.take(0).len() == 0);
    assert(steps_tape(t, script.take(0)) == t);
    assert(script.take(1).drop_last() =~= script.take(0));
    assert(script.take(1).last() == script[0]);
    assert(steps_tape(t, script.take(1)) == t);
    assert(script.take(2).drop_last() =~= script.take(1));
    assert(script.take(2).last() == script[1]);
    assert(steps_tape(t, script.take(2)) == obeyed(t, CommandModel::FormatLtfsPartitions));
    assert(script.take(3).drop_last() =~= script.take(2));
    assert(script.take(3).last() == script[2]);
    assert(steps_tape(t, script.take(3)) == steps_tape(t, script.take(2)));
}

proof fn lemma_last_steps(
    r: FormatRequest,
    uuid: Seq<char>,
    time: Seq<char>,
    version: Seq<char>,
    t: TapeModel,
)
    ensures
        steps_tape(t, format_script(r, uuid, time, version).subrange(30, 34)) == t,
        format_script(r, uuid, time, version)[30].kind == FormatKindModel::Command(
            CommandModel::Flush,
        ),
        format_script(r, uuid, time, version)[31].kind is Reference,
        format_script(r, uuid, time, version)[32].kind == (FormatKindModel::Coherency {
            partition: 0,
        }),
        format_script(r, uuid, time, version)[33].kind == (FormatKindModel::Coherency {
            partition: 1,
        }),
{
    let script = format_script(r, uuid, time, version);
    let last = script.subrange(30, 34);
    assert(last[0] == script[30] && last[1] == script[31] && last[2] == script[32] && last[3]
        == script[33]);
    assert(last.take(0).len() == 0);
    assert(steps_tape(t, last.take(0)) == t);
    assert(last.take(1).drop_last() =~= last.take(0));
    assert(last.take(1).last() == last[0]);
    assert(steps_tape(t, last.take(1)) == t);
    assert(last.take(2).drop_last() =~= last.take(1));
    assert(last.take(2).last() == last[1]);
    assert(steps_tape(t, last.take(2)) == t);
    assert(last.take(3).drop_last() =~= last.take(2));
    assert(last.take(3).last() == last[2]);
    assert(steps_tape(t, last.take(3)) == t);
    assert(last.drop_last() =~= last.take(3));
    assert(last.last() == last[3]);
}

proof fn lemma_attribute_ids(
    r: FormatRequest,
    uuid: Seq<char>,
    time: Seq<char>,
    version: Seq<char>,
)
    ensures
        ({
            let list = host_attributes(
                r.volume_name,
                r.barcode,
                uuid,
                version,
                first_digits(time, 12),
            );
            &&& list.len() == 9
            &&& forall|i: int, j: int|
                0 <= i < j < 9 ==> (#[trigger] list[i]).id != (#[trigger] list[j]).id
            &&& forall|i: int|
                0 <= i < 9 ==> (#[trigger] list[i]).id != VOLUME_CHANGE_REFERENCE && list[i].id
                    != VOLUME_COHERENCY_INFORMATION
        }),
{
}

proof fn lemma_script(
    r: FormatRequest,
    uuid: Seq<char>,
    time: Seq<char>,
    version: Seq<char>,
    t: TapeModel,
)
    ensures
        in_order(format_script(r, uuid, time, version), 31, t),
{
    reveal(in_order);
    lemma_groups(r, uuid, time, version);
    lemma_last_steps(r, uuid, time, version, t);
    lemma_attribute_ids(r, uuid, time, version);
    lemma_script_tape(r, uuid, time, version, t);
    let script = format_script(r, uuid, time, version);
    let list = host_attributes(r.volume_name, r.barcode, uuid, version, first_digits(time, 12));
    assert forall|i: int| 0 <= i < 34 && (#[trigger] script[i]).kind is Attribute implies 3 <= i
        < 12 && script[i].kind->id == list[i - 3].id by {
        lemma_kinds(r, uuid, time, version, i);
    }
    assert forall|i: int| 0 <= i < 34 && (#[trigger] script[i]).kind is Coherency implies i == 32
        || i == 33 by {
        lemma_kinds(r, uuid, time, version, i);
    }
    assert forall|i: int| 0 <= i < 34 && (#[trigger] script[i]).kind is Reference implies i
        == 31 by {
        lemma_kinds(r, uuid, time, version, i);
    }
    assert forall|i: int| 0 <= i < 34 && (#[trigger] script[i]).kind is Position implies (i == 18
        && place_of(script[i].kind) == 1) || (i == 27 && place_of(script[i].kind) == 0) by {
        lemma_kinds(r, uuid, time, version, i);
    }
    assert forall|i: int| 0 <= i < 34 implies ((#[trigger] script[i]).kind
        matches FormatKindModel::Command(c) ==> !(c is ReadMam || c is WriteMam || c
        is ReadPosition)) by {
        lemma_kinds(r, uuid, time, version, i);
    }
}

proof fn lemma_kinds(
    r: FormatRequest,
    uuid: Seq<char>,
    time: Seq<char>,
    version: Seq<char>,
    i: int,
)
    requires
        0 <= i < 34,
    ensures
        ({
            let kind = format_script(r, uuid, time, version)[i].kind;
            let list = host_attributes(
                r.volume_name,
                r.barcode,
                uuid,
                version,
                first_digits(time, 12),
            );
            &&& kind is Attribute <==> 3 <= i < 12
            &&& kind is Attribute ==> kind->id == list[i - 3].id && kind->value == list[i - 3].value
                && kind->required == list[i - 3].required
            &&& kind is Coherency <==> i == 32 || i == 33
            &&& kind is Reference <==> i == 31
            &&& kind is Position <==> i == 18 || i == 27
            &&& i == 18 ==> place_of(kind) == 1
            &&& i == 27 ==> place_of(kind) == 0
            &&& kind matches FormatKindModel::Command(c) ==> !(c is ReadMam || c is WriteMam || c
                is ReadPosition)
        }),
{
    lemma_groups(r, uuid, time, version);
    lemma_last_steps(r, uuid, time, version, arbitrary());
    let script = format_script(r, uuid, time, version);
    let (a, b, one, zero, last) = groups(r, uuid, time, version);
    if i < 3 {
        assert(script[i] == a[i]);
        assert(i == 0 || i == 1 || i == 2);
    } else if i < 12 {
        assert(script[i] == b[i - 3]);
    } else if i < 21 {
        assert(script[i] == one[i - 12]);
    } else if i < 30 {
        assert(script[i] == zero[i - 21]);
    } else {
        assert(i == 30 || i == 31 || i == 32 || i == 33);
    }
}

/// The blocks of a partition of the volume that is asked for.
pub open spec fn new_blocks(
    r: FormatRequest,
    uuid: Seq<char>,
    time: Seq<char>,
    version: Seq<char>,
    partition: u8,
) -> Seq<BlockModel> {
    volume_blocks(
        ansi_record(r.barcode),
        label_xml(initial_label(r, uuid, time, version, partition)),
        index_xml(initial_index(r, uuid, time, version, partition)),
    )
}

/// A format that ends well has written a whole new volume and nothing else: both partitions
/// hold VOL1, the label and the index, each in its place. The memory tells the coherency
/// information of both, with the reference that it held, and every attribute of which the
/// writing did not fail. A format fails where a step fails that may not; one of which no such
/// step fails ends well behind its last step.
pub proof fn finished_format_is_on_the_tape(
    r: FormatRequest,
    uuid: Seq<char>,
    time: Seq<char>,
    version: Seq<char>,
    t: TapeModel,
    told: Seq<TapeReply>,
)
    requires
        t.memory.dom().contains((0u8, VOLUME_CHANGE_REFERENCE)),
        all_honest(format_start(r, uuid, time, version), t, told),
    ensures
        ({
            let start = format_start(r, uuid, time, version);
            let vcr = t.memory[(0u8, VOLUME_CHANGE_REFERENCE)];
            let list = host_attributes(
                r.volume_name,
                r.barcode,
                uuid,
                version,
                first_digits(time, 12),
            );
            let action = format_run(start, told).action;
            let end = format_tape(start, t, told);
            &&& action == FormatActionModel::Finished(Ok(())) ==> {
                &&& end.parts == map![
                    0u8 => new_blocks(r, uuid, time, version, 0),
                    1u8 => new_blocks(r, uuid, time, version, 1),
                ]
                &&& forall|p: u8|
                    p <= 1 ==> #[trigger] end.memory.dom().contains(
                        (p, VOLUME_COHERENCY_INFORMATION),
                    ) && end.memory[(p, VOLUME_COHERENCY_INFORMATION)] == initial_vci(
                        vcr,
                        uuid,
                    )->Ok_0
                &&& forall|i: int|
                    0 <= i < list.len() && ((#[trigger] list[i]).required || !(told[i
                        + 3] is Failed)) ==> end.memory.dom().contains((0u8, list[i].id))
                        && end.memory[(0u8, list[i].id)] == list[i].value
            }
            &&& refused(start.rest, told) ==> action is Finished && action->Finished_0 is Err
            &&& !refused(start.rest, told) && initial_vci(vcr, uuid) is Ok ==> {
                &&& action is Finished ==> action->Finished_0 is Ok
                &&& action is Finished <==> told.len() == start.rest.len()
            }
        }),
{
    let start = format_start(r, uuid, time, version);
    let script = start.rest;
    let vcr = t.memory[(0u8, VOLUME_CHANGE_REFERENCE)];
    let list = host_attributes(r.volume_name, r.barcode, uuid, version, first_digits(time, 12));
    lemma_script(r, uuid, time, version, t);
    lemma_script_tape(r, uuid, time, version, t);
    lemma_last_steps(r, uuid, time, version, t);
    lemma_groups(r, uuid, time, version);
    lemma_attribute_ids(r, uuid, time, version);
    lemma_run(start, 31, vcr, t, told);
    let action = format_run(start, told).action;
    let end = format_tape(start, t, told);
    if action == FormatActionModel::Finished(Ok(())) {
        reveal(remembered);
        assert(script.take(34) =~= script);
        assert(script[32].kind is Coherency && script[33].kind is Coherency);
        assert forall|p: u8| p <= 1 implies #[trigger] end.memory.dom().contains(
            (p, VOLUME_COHERENCY_INFORMATION),
        ) && end.memory[(p, VOLUME_COHERENCY_INFORMATION)] == initial_vci(vcr, uuid)->Ok_0 by {
            assert(place_of(script[32].kind) == 0 && place_of(script[33].kind) == 1);
            assert(p == 0 || p == 1);
        }
        assert forall|i: int|
            0 <= i < list.len() && ((#[trigger] list[i]).required || !(told[i
                + 3] is Failed)) implies end.memory.dom().contains((0u8, list[i].id))
            && end.memory[(0u8, list[i].id)] == list[i].value by {
            lemma_kinds(r, uuid, time, version, i + 3);
            if told[i + 3] is Failed {
                assert(!may_fail(script[i + 3]));
            }
        }
    }
}

/// A new volume is found as it was asked for: the label of each partition with the barcode,
/// and its first index, in front of whose record stands the file mark in block 4.
pub proof fn new_volume_is_found(
    r: FormatRequest,
    uuid: Seq<char>,
    time: Seq<char>,
    version: Seq<char>,
    partition: u8,
    volume: Vec<u8>,
    label: Vec<u8>,
    index: Vec<u8>,
)
    requires
        format_fault(r) is None,
        trimmed(r.volume_name) == r.volume_name,
        solid(uuid),
        solid(time),
        partition <= 1,
        is_barcode(r.barcode),
        ({
            let blocks = new_blocks(r, uuid, time, version, partition);
            &&& blocks[0] == BlockModel::Record(volume@)
            &&& blocks[2] == BlockModel::Record(label@)
            &&& blocks[5] == BlockModel::Record(index@)
            &&& index@.len() > 0
        }),
    ensures
        ({
            let label_text = label_xml(initial_label(r, uuid, time, version, partition));
            let index_text = index_xml(initial_index(r, uuid, time, version, partition));
            &&& read_plainly(label_text, xml_events(label_text)) ==> label_run(
                partition,
                label_told(volume, label),
            ).1 == ProbeActionModel::Found(
                r.barcode,
                initial_label(r, uuid, time, version, partition),
            )
            &&& read_plainly(index_text, xml_events(index_text)) ==> latest_run(
                partition,
                partition_told(seq![Seq::empty(), seq![index]]),
            ).1 == LatestActionModel::Finished(
                Some(initial_index(r, uuid, time, version, partition)),
                Some(4),
            )
        }),
{
    let label_text = label_xml(initial_label(r, uuid, time, version, partition));
    let index_text = index_xml(initial_index(r, uuid, time, version, partition));
    new_volume_reads_back(r, uuid, time, version, partition);
    label_is_found(partition, volume, label, r.barcode, label_text);
    let one = seq![index];
    let groups = seq![Seq::empty(), one];
    assert(joined_records(one.drop_last()) =~= Seq::<u8>::empty());
    assert(joined_records(one) =~= index@);
    assert(groups.take(1).drop_last() =~= Seq::<Seq<Vec<u8>>>::empty());
    assert(groups.drop_last() =~= groups.take(1));
    assert(blocks_of(groups.take(1).drop_last()) == 0);
    assert(blocks_of(groups.take(1)) == 1);
    assert(blocks_of(groups) == 3);
    newest_index_is_found(partition, groups, 1);
    let m = initial_index(r, uuid, time, version, partition);
    if read_plainly(index_text, xml_events(index_text)) {
        assert(holds_index(groups[1], index_text, m));
    }
}

} // verus!
