//! What a volume that was written to had been found to be.
use vstd::prelude::*;

use super::append::vci_read;
use super::write::{
    coherency_checked, fails_with, first_turn, first_vci_reply, goes_on, inspect_reply, next_turn,
    vci_bytes_of, StageModel, WritableModel, WriteReply,
};
use super::write_law::{lemma_stage_is_reached_in_time, volume_told, write_run};
use super::write_state::WriteOptions;
use crate::ltfs::mam::VciModel;

verus! {

/// Coherency information tells an index: its generation, its volume and where it stands.
pub open spec fn tells_index(
    vci: VciModel,
    generation: u64,
    volume_uuid: Seq<char>,
    block: u64,
) -> bool {
    vci.generation == generation && vci.volume_uuid == volume_uuid && vci.block == block
}

/// The coherency information of both partitions tells the index of the volume, or none of
/// the two can be read; the index points back to one in the data partition, and does not say
/// that the volume is locked.
pub open spec fn volume_is_coherent(
    v: WritableModel,
    first: Result<Seq<u8>, Seq<char>>,
    second: Result<Seq<u8>, Seq<char>>,
) -> bool {
    &&& v.index.volume_lock_state is None || v.index.volume_lock_state == Some("unlocked"@)
    &&& v.index.previous_location matches Some(at)
    &&& at.partition == v.label.data_partition
    &&& match (
        vci_read(first, v.label.index_partition),
        vci_read(second, v.label.data_partition),
    ) {
        (Ok(a), Ok(b)) => {
            &&& tells_index(
                a,
                v.index.generation,
                v.index.volume_uuid,
                v.index.self_location.startblock,
            )
            &&& tells_index(b, v.index.generation, v.index.volume_uuid, at.startblock)
        },
        (Err(_), Err(_)) => true,
        _ => false,
    }
}

proof fn lemma_third(path: Seq<char>, options: WriteOptions, told: Seq<(WriteReply, bool)>)
    requires
        told.len() == 3,
        !(write_run(path, options, told).stage is Ended),
    ensures
        volume_told(told) is Some,
        volume_is_coherent(
            volume_told(told)->0,
            vci_bytes_of(told[1].0),
            vci_bytes_of(told[2].0),
        ),
{
    reveal(goes_on);
    reveal(fails_with);
    reveal(inspect_reply);
    reveal(first_vci_reply);
    reveal(coherency_checked);
    let two = told.drop_last();
    let one = two.drop_last();
    let none = one.drop_last();
    assert(none =~= Seq::empty());
    assert(two.last() == told[1]);
    assert(one.last() == told[0]);
    let r0 = write_run(path, options, none);
    assert(r0 == first_turn(path, options));
    assert(r0.stage is Inspect);
    let r1 = write_run(path, options, one);
    assert(r1 == next_turn(r0.context, r0.stage, told[0].0, told[0].1));
    let r2 = write_run(path, options, two);
    assert(r2 == next_turn(r1.context, r1.stage, told[1].0, told[1].1));
    let r3 = write_run(path, options, told);
    assert(r3 == next_turn(r2.context, r2.stage, told[2].0, told[2].1));
    assert(r1.stage is FirstVci || r1.stage is Ended);
    assert(r2.stage is SecondVci || r2.stage is Ended);
    if r1.stage is Ended {
        assert(r2.stage is Ended);
        assert(r3.stage is Ended);
    } else {
        assert(volume_told(told) == Some(r1.stage->FirstVci_0));
        assert(r2.stage == StageModel::SecondVci(
            r1.stage->FirstVci_0,
            vci_bytes_of(told[1].0),
        ));
    }
}

proof fn lemma_checked(path: Seq<char>, options: WriteOptions, told: Seq<(WriteReply, bool)>)
    requires
        told.len() >= 3,
        !(write_run(path, options, told).stage is Ended),
    ensures
        volume_told(told) is Some,
        volume_is_coherent(
            volume_told(told)->0,
            vci_bytes_of(told[1].0),
            vci_bytes_of(told[2].0),
        ),
    decreases told.len(),
{
    if told.len() == 3 {
        lemma_third(path, options, told);
    } else {
        let before = told.drop_last();
        assert(before[0] == told[0] && before[1] == told[1] && before[2] == told[2]);
        reveal(goes_on);
        reveal(fails_with);
        lemma_checked(path, options, before);
    }
}

/// A write ends well only on a volume that was coherent and not locked when it began: with an
/// index that points back to the data partition, and with coherency information of both partitions that
/// tells just this index, or none at all.
pub proof fn finished_write_found_a_coherent_volume(
    path: Seq<char>,
    options: WriteOptions,
    told: Seq<(WriteReply, bool)>,
)
    requires
        write_run(path, options, told).action is Finished,
    ensures
        told.len() > 3,
        volume_told(told) is Some,
        volume_is_coherent(
            volume_told(told)->0,
            vci_bytes_of(told[1].0),
            vci_bytes_of(told[2].0),
        ),
{
    lemma_stage_is_reached_in_time(path, options, told);
    let before = told.drop_last();
    assert(before[0] == told[0] && before[1] == told[1] && before[2] == told[2]);
    lemma_checked(path, options, before);
}

} // verus!
