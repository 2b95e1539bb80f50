//! What is asked of a drive stands where the drive looks for it.
use vstd::prelude::*;

use super::command::{bit, block_of};
use super::session::{
    begun, replied, step_kind, variable_page, ScsiAnswer, ScsiKind, ScsiReply, SessionState,
    TapeActionModel, TapeStep, TapeValueModel,
};
use super::tape::{can_partition, ltfs_partition_page, write_anywhere_spec, writes_anywhere};
use crate::bytes::{
    be_bytes, be_value, lemma_be_bytes_len, lemma_be_round_trip, lemma_pow256, pow256,
};

verus! {

proof fn lemma_field(head: Seq<u8>, n: nat, width: nat, tail: Seq<u8>)
    requires
        n < pow256(width),
    ensures
        ({
            let block = head + be_bytes(n, width) + tail;
            let at = head.len() as int;
            &&& block.len() == head.len() + width + tail.len()
            &&& be_value(block.subrange(at, at + width)) == n
            &&& forall|i: int| 0 <= i < at ==> #[trigger] block[i] == head[i]
            &&& forall|i: int| 0 <= i < tail.len() ==> block[at + width + i] == #[trigger] tail[i]
        }),
{
    let block = head + be_bytes(n, width) + tail;
    let at = head.len() as int;
    lemma_be_bytes_len(n, width);
    lemma_be_round_trip(n, width);
    assert(block.subrange(at, at + width) =~= be_bytes(n, width));
}

/// A LOCATE names its partition and its block, and says whether the partition changes.
pub proof fn locate_names_its_place(partition: u8, block: u64, change: bool, sent: nat)
    ensures
        ({
            let bytes = block_of(ScsiKind::Locate { partition, block, change }, sent);
            &&& bytes.len() == 16
            &&& bytes[0] == 0x92
            &&& bytes[1] == if change {
                2u8
            } else {
                0u8
            }
            &&& bytes[3] == partition
            &&& be_value(bytes.subrange(4, 12)) == block
        }),
{
    lemma_pow256();
    let head = seq![
        0x92u8,
        (2 * bit(change)) as u8,
        0u8,
        partition,
    ];
    lemma_field(head, block as nat, 8, seq![0u8, 0u8, 0u8, 0u8]);
}

/// A READ and a WRITE name the length of one record of variable length, and file marks are
/// counted.
pub proof fn records_have_their_length(len: usize, sent: nat, count: u32)
    requires
        len < 0x1000000,
        sent < 0x1000000,
        count < 0x1000000,
    ensures
        ({
            let read = block_of(ScsiKind::Read { len }, sent);
            let write = block_of(ScsiKind::Write, sent);
            let marks = block_of(ScsiKind::WriteFilemarks { count }, sent);
            &&& read.len() == 6 && read[0] == 0x08 && read[1] == 0
            &&& be_value(read.subrange(2, 5)) == len
            &&& write.len() == 6 && write[0] == 0x0a && write[1] == 0
            &&& be_value(write.subrange(2, 5)) == sent
            &&& marks.len() == 6 && marks[0] == 0x10 && marks[1] == 0
            &&& be_value(marks.subrange(2, 5)) == count
        }),
{
    lemma_pow256();
    reveal_with_fuel(pow256, 4);
    lemma_field(seq![0x08u8, 0u8], len as nat, 3, seq![0u8]);
    lemma_field(seq![0x0au8, 0u8], sent, 3, seq![0u8]);
    lemma_field(seq![0x10u8, 0u8], count as nat, 3, seq![0u8]);
}

/// An attribute is read and written on its partition, under its number, with its length.
pub proof fn attributes_have_their_place(partition: u8, id: u16, len: usize, sent: nat)
    requires
        len < 0x10000000,
        sent < 0x10000000,
    ensures
        ({
            let read = block_of(ScsiKind::ReadAttribute { partition, id, len }, sent);
            let write = block_of(ScsiKind::WriteAttribute { partition }, sent);
            &&& read.len() == 16 && read[0] == 0x8c && read[1] == 0
            &&& read[7] == partition
            &&& be_value(read.subrange(8, 10)) == id
            &&& be_value(read.subrange(10, 14)) == len
            &&& write.len() == 16 && write[0] == 0x8d && write[1] == 1
            &&& write[7] == partition
            &&& be_value(write.subrange(10, 14)) == sent
        }),
{
    lemma_pow256();
    reveal_with_fuel(pow256, 5);
    let tail = seq![0u8, 0u8];
    let head = seq![0x8cu8, 0u8, 0u8, 0u8, 0u8, 0u8, 0u8, partition];
    lemma_field(head, id as nat, 2, be_bytes(len as nat, 4) + tail);
    lemma_be_bytes_len(id as nat, 2);
    lemma_be_bytes_len(len as nat, 4);
    lemma_field(head + be_bytes(id as nat, 2), len as nat, 4, tail);
    let read = block_of(ScsiKind::ReadAttribute { partition, id, len }, sent);
    assert(read =~= head + be_bytes(id as nat, 2) + (be_bytes(len as nat, 4) + tail));
    assert(read =~= (head + be_bytes(id as nat, 2)) + be_bytes(len as nat, 4) + tail);
    let first = seq![0x8du8, 1u8, 0u8, 0u8, 0u8, 0u8, 0u8, partition];
    lemma_be_bytes_len(0, 2);
    lemma_field(first + be_bytes(0, 2), sent, 4, tail);
    let write = block_of(ScsiKind::WriteAttribute { partition }, sent);
    assert(write =~= (first + be_bytes(0, 2)) + be_bytes(sent, 4) + tail);
    assert((first + be_bytes(0, 2))[7] == partition);
    assert((first + be_bytes(0, 2))[0] == 0x8d);
    assert((first + be_bytes(0, 2))[1] == 1);
}

/// An erase says whether it is long and whether the drive answers at once; a long one that
/// is started is both, a short one neither. Loading and unloading differ in their last bit.
pub proof fn erase_says_what_it_is(long: bool, immediate: bool, load: bool, sent: nat)
    ensures
        ({
            let erase = block_of(ScsiKind::Erase { long, immediate }, sent);
            let start = block_of(ScsiKind::StartStop { load }, sent);
            &&& erase.len() == 6 && erase[0] == 0x19
            &&& (erase[1] % 2 == 1) <==> long
            &&& (erase[1] / 2 % 2 == 1) <==> immediate
            &&& erase[1] < 4
            &&& start.len() == 6 && start[0] == 0x1b
            &&& start[4] == if load {
                1u8
            } else {
                0u8
            }
        }),
        step_kind(TapeStep::LongErase) == (ScsiKind::Erase { long: true, immediate: true }),
        step_kind(TapeStep::ShortErase) == (ScsiKind::Erase { long: false, immediate: false }),
        step_kind(TapeStep::Load) == (ScsiKind::StartStop { load: true }),
        step_kind(TapeStep::Unload) == (ScsiKind::StartStop { load: false }),
{
}

/// The page that is sent back to a drive in append-only mode switches that mode off and
/// changes nothing else but what is reserved when a page is sent.
pub proof fn append_only_is_switched_off(page: Seq<u8>)
    requires
        page.len() == 48,
    ensures
        ({
            let next = write_anywhere_spec(page);
            &&& next.len() == 48
            &&& writes_anywhere(next)
            &&& next[21] % 16 == page[21] % 16
            &&& next[16] < 128 && next[16] % 128 == page[16] % 128
            &&& next[0] == 0 && next[1] == 0
            &&& forall|i: int|
                2 <= i < 48 && i != 16 && i != 21 ==> #[trigger] next[i] == page[i]
            &&& write_anywhere_spec(next) == next
        }),
{
    let next = write_anywhere_spec(page);
    assert(write_anywhere_spec(next) =~= next);
}

/// The page that is sent to a drive that can have an extra partition asks for exactly one:
/// the first partition as small as it can be, the other one with all the rest.
pub proof fn two_partitions_are_asked_for(page: Seq<u8>)
    requires
        can_partition(page),
    ensures
        ({
            let next = ltfs_partition_page(page);
            &&& next.len() == page.len()
            &&& can_partition(next)
            &&& next[19] == 1
            &&& next[20] / 32 == 1 && next[20] % 32 == page[20] % 32
            &&& be_value(next.subrange(24, 26)) == 1
            &&& be_value(next.subrange(26, 28)) == 0xffff
            &&& next[16] < 128
            &&& next[0] == 0 && next[1] == 0
            &&& forall|i: int|
                #![trigger next[i]]
                (2 <= i < 16 || i == 17 || i == 18 || i == 21 || i == 23 || 28 <= i < page.len())
                    ==> next[i] == page[i]
        }),
{
    let next = ltfs_partition_page(page);
    let a = next.subrange(24, 26);
    let b = next.subrange(26, 28);
    reveal_with_fuel(be_value, 3);
    assert(a.drop_last().drop_last() =~= Seq::<u8>::empty());
    assert(b.drop_last().drop_last() =~= Seq::<u8>::empty());
    assert(a.drop_last().last() == 0 && a.last() == 1);
    assert(b.drop_last().last() == 0xff && b.last() == 0xff);
}

/// Records of variable length are asked for by a block length of zero, at the density that
/// the medium has.
pub proof fn variable_blocks_keep_the_density(page: Seq<u8>)
    ensures
        ({
            let next = variable_page(page);
            &&& next.len() == 12
            &&& next[3] == 8
            &&& next[9] == 0 && next[10] == 0 && next[11] == 0
            &&& page.len() >= 12 && page[3] >= 8 ==> next[4] == page[4]
            &&& !(page.len() >= 12 && page[3] >= 8) ==> next[4] == 0
        }),
{
}

/// A session once it has been told so much of an operation.
pub open spec fn session_run(
    start: (SessionState, TapeActionModel),
    told: Seq<ScsiReply>,
) -> (SessionState, TapeActionModel)
    decreases told.len(),
{
    if told.len() == 0 {
        start
    } else {
        replied(session_run(start, told.drop_last()).0, told.last())
    }
}

proof fn lemma_told(
    start: (SessionState, TapeActionModel),
    told: Seq<ScsiReply>,
    reply: ScsiReply,
)
    ensures
        session_run(start, told.push(reply)) == replied(session_run(start, told).0, reply),
{
    assert(told.push(reply).drop_last() =~= told);
}

/// A drive in append-only mode is switched: the tape is unloaded, the page without that mode
/// is sent, the tape is loaded, and records of variable length are chosen at the density of
/// the medium. Only then is the operation done.
pub proof fn append_only_drive_is_switched(
    s: SessionState,
    page: ScsiAnswer,
    unloaded: ScsiAnswer,
    selected: ScsiAnswer,
    loaded: ScsiAnswer,
    density: ScsiAnswer,
    last: ScsiAnswer,
)
    requires
        page.result.status == 0,
        unloaded.result.status == 0,
        selected.result.status == 0,
        loaded.result.status == 0,
        density.result.status == 0,
        last.result.status == 0,
        page.data@.len() == 48,
        !writes_anywhere(page.data@),
    ensures
        ({
            let start = begun(s, seq![TapeStep::SenseWriteAnywhere], Seq::empty());
            let none = Seq::<ScsiReply>::empty();
            let one = none.push(Ok(page));
            let two = one.push(Ok(unloaded));
            let three = two.push(Ok(selected));
            let four = three.push(Ok(loaded));
            let five = four.push(Ok(density));
            let six = five.push(Ok(last));
            &&& session_run(start, one).1 == TapeActionModel::Command(
                ScsiKind::StartStop { load: false },
                Seq::<u8>::empty(),
            )
            &&& session_run(start, two).1 == TapeActionModel::Command(
                ScsiKind::ModeSelect10,
                write_anywhere_spec(page.data@),
            )
            &&& session_run(start, three).1 == TapeActionModel::Command(
                ScsiKind::StartStop { load: true },
                Seq::<u8>::empty(),
            )
            &&& session_run(start, four).1 is Command
            &&& session_run(start, five).1 == TapeActionModel::Command(
                ScsiKind::ModeSelect6,
                variable_page(density.data@),
            )
            &&& session_run(start, six).1 == TapeActionModel::Finished(TapeValueModel::Done)
        }),
{
    let start = begun(s, seq![TapeStep::SenseWriteAnywhere], Seq::empty());
    let none = Seq::<ScsiReply>::empty();
    let one = none.push(Ok(page));
    let two = one.push(Ok(unloaded));
    let three = two.push(Ok(selected));
    let four = three.push(Ok(loaded));
    let five = four.push(Ok(density));
    lemma_told(start, none, Ok(page));
    lemma_told(start, one, Ok(unloaded));
    lemma_told(start, two, Ok(selected));
    lemma_told(start, three, Ok(loaded));
    lemma_told(start, four, Ok(density));
    lemma_told(start, five, Ok(last));
    let steps = session_run(start, one).0.steps;
    assert(steps.drop_first().len() == 3 && steps.drop_first()[0] is SelectWriteAnywhere);
    let two_steps = session_run(start, two).0.steps;
    assert(two_steps == steps.drop_first());
    assert(two_steps.drop_first()[0] is ReloadAfterSwitch);
    let three_steps = session_run(start, three).0.steps;
    assert(three_steps.drop_first()[0] is SenseDensity);
}

} // verus!
