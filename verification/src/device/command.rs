//! The command blocks of the SCSI commands that a session sends.
use vstd::prelude::*;

use super::session::ScsiKind;
use crate::bytes::{append_bytes, be_bytes, lemma_be_bytes_len, to_be};

verus! {

/// A switch as a bit.
pub open spec fn bit(on: bool) -> u8 {
    if on {
        1
    } else {
        0
    }
}

/// A block of six bytes: the operation code, then the bytes in their order, and the
/// control byte.
pub open spec fn six(code: u8, a: u8, b: u8, c: u8, d: u8) -> Seq<u8> {
    seq![code, a, b, c, d, 0u8]
}

/// A block of six bytes with a length in three of them.
pub open spec fn six_with_length(code: u8, n: nat) -> Seq<u8> {
    seq![code, 0u8] + be_bytes(n, 3) + seq![0u8]
}

/// A block of ten bytes with a length in two of them.
pub open spec fn ten_with_length(code: u8, a: u8, b: u8, c: u8, n: nat) -> Seq<u8> {
    seq![code, a, b, c, 0u8, 0u8, 0u8] + be_bytes(n, 2) + seq![0u8]
}

/// The block of an attribute command.
pub open spec fn attribute_block(code: u8, a: u8, partition: u8, id: nat, n: nat) -> Seq<u8> {
    seq![code, a, 0u8, 0u8, 0u8, 0u8, 0u8, partition] + be_bytes(id, 2) + be_bytes(n, 4) + seq![
        0u8,
        0u8,
    ]
}

/// The command block of a command that sends `sent` bytes.
pub open spec fn block_of(kind: ScsiKind, sent: nat) -> Seq<u8> {
    match kind {
        ScsiKind::ModeSense { page, len } => six(0x1a, 0, page, 0, (len % 256) as u8),
        ScsiKind::ModeSense10 { page, subpage, len } => ten_with_length(
            0x5a,
            0,
            page,
            subpage,
            len as nat,
        ),
        ScsiKind::ModeSelect6 => six(0x15, 0x10, 0, 0, (sent % 256) as u8),
        ScsiKind::ModeSelect10 => ten_with_length(0x55, 0x10, 0, 0, sent),
        ScsiKind::StartStop { load } => six(0x1b, 0, 0, 0, bit(load)),
        ScsiKind::LoadUnload { action } => six(0x1b, 0, 0, 0, action),
        ScsiKind::PreventRemoval { prevent } => six(0x1e, 0, 0, 0, bit(prevent)),
        ScsiKind::FormatMedium { layout } => six(0x04, 0, layout, 0, 0),
        ScsiKind::Erase { long, immediate } => six(
            0x19,
            (bit(long) + 2 * bit(immediate)) as u8,
            0,
            0,
            0,
        ),
        ScsiKind::RequestSense { len } => six(0x03, 0, 0, 0, (len % 256) as u8),
        ScsiKind::Rewind => six(0x01, 0, 0, 0, 0),
        ScsiKind::ReadPosition { .. } => ten_with_length(0x34, 0x06, 0, 0, 0),
        ScsiKind::SpaceToEod => six(0x11, 0x03, 0, 0, 0),
        ScsiKind::Locate { partition, block, change } => seq![
            0x92u8,
            (2 * bit(change)) as u8,
            0u8,
            partition,
        ] + be_bytes(block as nat, 8) + seq![0u8, 0u8, 0u8, 0u8],
        ScsiKind::Read { len } => six_with_length(0x08, len as nat),
        ScsiKind::Write => six_with_length(0x0a, sent),
        ScsiKind::WriteFilemarks { count } => six_with_length(0x10, count as nat),
        ScsiKind::ReadAttribute { partition, id, len } => attribute_block(
            0x8c,
            0,
            partition,
            id as nat,
            len as nat,
        ),
        ScsiKind::WriteAttribute { partition } => attribute_block(
            0x8d,
            1,
            partition,
            0,
            sent,
        ),
    }
}

fn bit_of(on: bool) -> (b: u8)
    ensures
        b == bit(on),
{
    if on {
        1
    } else {
        0
    }
}

fn six_bytes(code: u8, a: u8, b: u8, c: u8, d: u8) -> (block: Vec<u8>)
    ensures
        block@ == six(code, a, b, c, d),
{
    let block: Vec<u8> = vec![code, a, b, c, d, 0];
    assert(block@ =~= six(code, a, b, c, d));
    block
}

fn six_bytes_with_length(code: u8, n: u64) -> (block: Vec<u8>)
    ensures
        block@ == six_with_length(code, n as nat),
{
    let mut block: Vec<u8> = vec![code, 0];
    append_bytes(&mut block, to_be(n, 3).as_slice());
    block.push(0);
    assert(block@ =~= six_with_length(code, n as nat));
    block
}

fn ten_bytes_with_length(code: u8, a: u8, b: u8, c: u8, n: u64) -> (block: Vec<u8>)
    ensures
        block@ == ten_with_length(code, a, b, c, n as nat),
{
    let mut block: Vec<u8> = vec![code, a, b, c, 0, 0, 0];
    append_bytes(&mut block, to_be(n, 2).as_slice());
    block.push(0);
    assert(block@ =~= ten_with_length(code, a, b, c, n as nat));
    block
}

fn attribute_bytes(code: u8, a: u8, partition: u8, id: u16, n: u64) -> (block: Vec<u8>)
    ensures
        block@ == attribute_block(code, a, partition, id as nat, n as nat),
{
    let mut block: Vec<u8> = vec![code, a, 0, 0, 0, 0, 0, partition];
    append_bytes(&mut block, to_be(id as u64, 2).as_slice());
    append_bytes(&mut block, to_be(n, 4).as_slice());
    block.push(0);
    block.push(0);
    assert(block@ =~= attribute_block(code, a, partition, id as nat, n as nat));
    block
}

/// The command block of a command that sends `sent` bytes.
pub fn command_block(kind: ScsiKind, sent: usize) -> (block: Vec<u8>)
    ensures
        block@ == block_of(kind, sent as nat),
{
    match kind {
        ScsiKind::ModeSense { page, len } => six_bytes(0x1a, 0, page, 0, (len % 256) as u8),
        ScsiKind::ModeSense10 { page, subpage, len } => ten_bytes_with_length(
            0x5a,
            0,
            page,
            subpage,
            len as u64,
        ),
        ScsiKind::ModeSelect6 => six_bytes(0x15, 0x10, 0, 0, (sent % 256) as u8),
        ScsiKind::ModeSelect10 => ten_bytes_with_length(0x55, 0x10, 0, 0, sent as u64),
        ScsiKind::StartStop { load } => six_bytes(0x1b, 0, 0, 0, bit_of(load)),
        ScsiKind::LoadUnload { action } => six_bytes(0x1b, 0, 0, 0, action),
        ScsiKind::PreventRemoval { prevent } => six_bytes(0x1e, 0, 0, 0, bit_of(prevent)),
        ScsiKind::FormatMedium { layout } => six_bytes(0x04, 0, layout, 0, 0),
        ScsiKind::Erase { long, immediate } => six_bytes(
            0x19,
            bit_of(long) + 2 * bit_of(immediate),
            0,
            0,
            0,
        ),
        ScsiKind::RequestSense { len } => six_bytes(0x03, 0, 0, 0, (len % 256) as u8),
        ScsiKind::Rewind => six_bytes(0x01, 0, 0, 0, 0),
        ScsiKind::ReadPosition { .. } => ten_bytes_with_length(0x34, 0x06, 0, 0, 0),
        ScsiKind::SpaceToEod => six_bytes(0x11, 0x03, 0, 0, 0),
        ScsiKind::Locate { partition, block, change } => {
            let mut bytes: Vec<u8> = vec![0x92, 2 * bit_of(change), 0, partition];
            append_bytes(&mut bytes, to_be(block, 8).as_slice());
            let rest: [u8; 4] = [0, 0, 0, 0];
            append_bytes(&mut bytes, rest.as_slice());
            assert(bytes@ =~= block_of(kind, sent as nat));
            bytes
        },
        ScsiKind::Read { len } => six_bytes_with_length(0x08, len as u64),
        ScsiKind::Write => six_bytes_with_length(0x0a, sent as u64),
        ScsiKind::WriteFilemarks { count } => six_bytes_with_length(
            0x10,
            count as u64,
        ),
        ScsiKind::ReadAttribute { partition, id, len } => attribute_bytes(
            0x8c,
            0,
            partition,
            id,
            len as u64,
        ),
        ScsiKind::WriteAttribute { partition } => attribute_bytes(
            0x8d,
            1,
            partition,
            0,
            sent as u64,
        ),
    }
}

/// The block of a LOG SENSE for the current values of a page.
pub fn log_sense_block(page: u8, len: u16) -> (block: Vec<u8>)
    ensures
        block@ == ten_with_length(0x4d, 0, (0x40 + page % 64) as u8, 0, len as nat),
{
    ten_bytes_with_length(0x4d, 0, 0x40 + page % 64, 0, len as u64)
}

/// The block of a RECEIVE DIAGNOSTIC RESULTS for a page.
pub fn diagnostic_block(page: u8, len: u16) -> (block: Vec<u8>)
    ensures
        block@ == seq![0x1cu8, 1u8, page, (len / 256) as u8, (len % 256) as u8, 0u8],
{
    let block = six_bytes(0x1c, 1, page, (len / 256) as u8, (len % 256) as u8);
    assert(block@ =~= seq![0x1cu8, 1u8, page, (len / 256) as u8, (len % 256) as u8, 0u8]);
    block
}

/// What a command sends: the attributes that are written stand behind their length, and
/// everything else goes as it is.
pub fn sent_bytes(kind: ScsiKind, data: Vec<u8>) -> (bytes: Vec<u8>)
    ensures
        bytes@ == (if kind is WriteAttribute {
            be_bytes(data@.len(), 4) + data@
        } else {
            data@
        }),
{
    match kind {
        ScsiKind::WriteAttribute { .. } => {
            let mut bytes = to_be(data.len() as u64, 4);
            append_bytes(&mut bytes, data.as_slice());
            bytes
        },
        _ => data,
    }
}

/// The length of a block is the one that its operation code stands for: 6, 10 or 16 bytes.
pub proof fn blocks_have_their_length(kind: ScsiKind, sent: nat)
    ensures
        ({
            let block = block_of(kind, sent);
            let group = block[0] / 32;
            block.len() == (if group == 0 {
                6int
            } else if group == 1 || group == 2 {
                10
            } else {
                16
            })
        }),
{
    match kind {
        ScsiKind::ModeSense10 { len, .. } => lemma_be_bytes_len(len as nat, 2),
        ScsiKind::ModeSelect10 => lemma_be_bytes_len(sent, 2),
        ScsiKind::ReadPosition { .. } => lemma_be_bytes_len(0, 2),
        ScsiKind::Locate { block, .. } => lemma_be_bytes_len(block as nat, 8),
        ScsiKind::Read { len } => lemma_be_bytes_len(len as nat, 3),
        ScsiKind::Write => lemma_be_bytes_len(sent, 3),
        ScsiKind::WriteFilemarks { count } => lemma_be_bytes_len(count as nat, 3),
        ScsiKind::ReadAttribute { id, len, .. } => {
            lemma_be_bytes_len(id as nat, 2);
            lemma_be_bytes_len(len as nat, 4);
        },
        ScsiKind::WriteAttribute { .. } => {
            lemma_be_bytes_len(0, 2);
            lemma_be_bytes_len(sent, 4);
        },
        _ => {},
    }
}

} // verus!
