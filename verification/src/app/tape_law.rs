//! A tape, and what a drive that carries commands out does to it.
use vstd::prelude::*;

use super::flow::{CommandModel, TapeReply};

verus! {

/// What stands in a block of a partition.
pub enum BlockModel {
    Record(Seq<u8>),
    Mark,
}

/// A tape in a drive: the blocks of its partitions, where it stands, and its memory.
#[verifier::ext_equal]
pub struct TapeModel {
    pub parts: Map<u8, Seq<BlockModel>>,
    pub partition: u8,
    pub block: nat,
    pub memory: Map<(u8, u16), Seq<u8>>,
}

/// A block is written where the tape stands: what stood there and behind it is gone.
pub open spec fn block_put(t: TapeModel, block: BlockModel) -> TapeModel {
    TapeModel {
        parts: t.parts.insert(
            t.partition,
            t.parts[t.partition].take(t.block as int).push(block),
        ),
        block: t.block + 1,
        ..t
    }
}

/// The tape once a command has been carried out.
pub open spec fn obeyed(t: TapeModel, command: CommandModel) -> TapeModel {
    match command {
        CommandModel::WriteRecord { data } => block_put(t, BlockModel::Record(data)),
        CommandModel::WriteFilemark => block_put(t, BlockModel::Mark),
        CommandModel::Locate { partition, block } => TapeModel {
            partition,
            block: block as nat,
            ..t
        },
        CommandModel::WriteMam { partition, id, value, .. } => TapeModel {
            memory: t.memory.insert((partition, id), value),
            ..t
        },
        CommandModel::FormatLtfsPartitions => TapeModel {
            parts: map![0u8 => Seq::empty(), 1u8 => Seq::empty()],
            partition: 0,
            block: 0,
            ..t
        },
        _ => t,
    }
}

/// What a drive says that has carried a command out: where the tape stands, what its memory
/// holds, or just that it is done.
pub open spec fn says(t: TapeModel, command: CommandModel, reply: TapeReply) -> bool {
    match command {
        CommandModel::ReadPosition => reply matches TapeReply::Position(at) && at.partition
            == t.partition && at.block == t.block,
        CommandModel::ReadMam { partition, id } => reply matches TapeReply::Bytes(bytes)
            && t.memory.dom().contains((partition, id)) && bytes@ == t.memory[(partition, id)],
        _ => reply is Done,
    }
}

/// A drive either says that it has carried a command out, or that it has failed.
pub open spec fn honest(t: TapeModel, command: CommandModel, reply: TapeReply) -> bool {
    reply is Failed || says(t, command, reply)
}

/// Records between two file marks.
pub open spec fn marked(chunks: Seq<Seq<u8>>) -> Seq<BlockModel> {
    seq![BlockModel::Mark] + chunks.map_values(|c: Seq<u8>| BlockModel::Record(c)) + seq![
        BlockModel::Mark,
    ]
}

} // verus!
