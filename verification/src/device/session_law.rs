//! What a session makes of the answers of a drive: a record is read whole, whatever its
//! length, and nothing else is taken for a record.
use vstd::prelude::*;

use super::scsi::{attributes_spec, position_spec, received_spec, MamRecordModel};
use super::session::{
    attributes_that_came, begun, ended, replied, ScsiAnswer, ScsiKind, SessionState,
    TapeActionModel, TapeStep, TapeValueModel,
};
use super::tape::{
    attribute_with_id, format_code_spec, long_erase_spec, LongEraseStatus, MamAttributeFormat,
    READ_BUF_LEN,
};
use crate::bytes::{be_bytes, be_value, lemma_be_round_trip, lemma_pow256};

verus! {

/// Sense data in the fixed format.
pub open spec fn fixed_sense(sense: Seq<u8>) -> bool {
    sense.len() >= 14 && (sense[0] % 128 == 0x70 || sense[0] % 128 == 0x71)
}

/// The sense data tells of a file mark.
pub open spec fn tells_filemark(sense: Seq<u8>) -> bool {
    sense[2] >= 128
}

/// The sense data tells that the record has another length than was asked for.
pub open spec fn tells_other_length(sense: Seq<u8>) -> bool {
    sense[2] / 32 % 2 == 1
}

/// The sense data tells of blank tape.
pub open spec fn tells_blank(sense: Seq<u8>) -> bool {
    sense[2] % 16 == 8
}

/// The answer to a READ that met a record of `n` bytes: as many bytes are missing as the
/// record is shorter than the buffer, and the command was good, or the drive tells of the
/// other length.
pub open spec fn met_record(answer: ScsiAnswer, n: nat) -> bool {
    let sense = answer.result.sense@;
    &&& 0 < n <= READ_BUF_LEN
    &&& answer.result.resid == READ_BUF_LEN - n
    &&& answer.result.status == 0 || (fixed_sense(sense) && tells_other_length(sense)
        && !tells_filemark(sense) && !tells_blank(sense))
}

/// A record is read whole: where a READ meets a record of `n` bytes, exactly the first `n`
/// bytes of the buffer are brought, whether the drive calls a shorter record good or tells
/// of its length.
pub proof fn met_record_is_brought(s: SessionState, answer: ScsiAnswer, n: nat)
    requires
        met_record(answer, n),
        answer.data@.len() == READ_BUF_LEN,
    ensures
        ({
            let (t, action) = begun(s, seq![TapeStep::Read], Seq::empty());
            &&& action == TapeActionModel::Command(
                ScsiKind::Read { len: READ_BUF_LEN },
                Seq::<u8>::empty(),
            )
            &&& replied(t, Ok(answer)).1 == TapeActionModel::Finished(
                TapeValueModel::Data(answer.data@.take(n as int)),
            )
            &&& replied(t, Ok(answer)).0 == ended(s)
        }),
{
    assert(answer.data@.take(n as int) =~= answer.data@.subrange(0, n as int));
}

/// A READ that meets a file mark or blank tape brings that and no data: the file mark
/// first, where the drive tells of both.
pub proof fn marks_and_blank_tape_are_told(s: SessionState, answer: ScsiAnswer)
    requires
        answer.result.status != 0,
        fixed_sense(answer.result.sense@),
        tells_filemark(answer.result.sense@) || tells_blank(answer.result.sense@),
    ensures
        ({
            let t = begun(s, seq![TapeStep::Read], Seq::empty()).0;
            replied(t, Ok(answer)).1 == TapeActionModel::Finished(
                if tells_filemark(answer.result.sense@) {
                    TapeValueModel::Filemark
                } else {
                    TapeValueModel::Eod
                },
            )
        }),
{
}

/// What a READ brings was on the tape: data comes only where the command was good or the
/// drive tells of another length, and it is what came of the buffer; a file mark or the end
/// of the data comes only where the drive tells of one. A READ that was refused for another
/// reason fails.
pub proof fn nothing_else_is_a_record(s: SessionState, answer: ScsiAnswer)
    requires
        answer.data@.len() == READ_BUF_LEN,
        answer.result.status != 0 ==> fixed_sense(answer.result.sense@),
    ensures
        ({
            let t = begun(s, seq![TapeStep::Read], Seq::empty()).0;
            let sense = answer.result.sense@;
            let good = answer.result.status == 0;
            match replied(t, Ok(answer)).1 {
                TapeActionModel::Finished(TapeValueModel::Data(data)) => {
                    &&& good || (tells_other_length(sense) && !tells_filemark(sense)
                        && !tells_blank(sense) && data.len() > 0)
                    &&& data.is_prefix_of(answer.data@)
                    &&& 0 <= answer.result.resid <= READ_BUF_LEN ==> data.len() == READ_BUF_LEN
                        - answer.result.resid
                },
                TapeActionModel::Finished(TapeValueModel::Filemark) => !good && tells_filemark(
                    sense,
                ),
                TapeActionModel::Finished(TapeValueModel::Eod) => !good && tells_blank(sense),
                TapeActionModel::Failed(_) => !good && !tells_filemark(sense) && !tells_blank(
                    sense,
                ) && (tells_other_length(sense) ==> answer.result.resid >= READ_BUF_LEN),
                _ => false,
            }
        }),
{
    let data = answer.data@;
    let n = received_spec(READ_BUF_LEN as nat, answer.result.resid) as int;
    assert(data.subrange(0, n).is_prefix_of(data));
}

/// A record is sent to the drive as it was given, in one WRITE; what the drive takes is
/// done, and what it refuses fails.
pub proof fn record_is_sent_whole(s: SessionState, data: Seq<u8>, answer: ScsiAnswer)
    ensures
        ({
            let (t, action) = begun(s, seq![TapeStep::Write], data);
            &&& action == TapeActionModel::Command(ScsiKind::Write, data)
            &&& if answer.result.status == 0 {
                replied(t, Ok(answer)).1 == TapeActionModel::Finished(TapeValueModel::Done)
            } else {
                replied(t, Ok(answer)).1 is Failed
            }
        }),
{
}

/// A position is the partition and the block that the drive tells in four and eight bytes
/// behind the first four.
pub proof fn told_position_is_known(buf: Seq<u8>, partition: u32, block: u64)
    requires
        buf.len() >= 24,
        buf.subrange(4, 8) == be_bytes(partition as nat, 4),
        buf.subrange(8, 16) == be_bytes(block as nat, 8),
    ensures
        position_spec(buf) is Some,
        position_spec(buf)->0.partition == partition,
        position_spec(buf)->0.block == block,
{
    lemma_pow256();
    lemma_be_round_trip(partition as nat, 4);
    lemma_be_round_trip(block as nat, 8);
}

/// The bytes of an attribute: its identifier, its format, the length of its value, and the
/// value.
pub open spec fn attribute_bytes(id: u16, format: MamAttributeFormat, value: Seq<u8>) -> Seq<u8> {
    be_bytes(id as nat, 2) + seq![format_code_spec(format)] + be_bytes(value.len(), 2) + value
}

/// An attribute that is written is read back: where the answer of the drive holds, behind a
/// header of four bytes, the bytes of the attribute, its value is found under its
/// identifier.
pub proof fn written_attribute_is_read_back(
    id: u16,
    format: MamAttributeFormat,
    value: Seq<u8>,
    data: Seq<u8>,
    resid: i32,
)
    requires
        value.len() <= 0xffff,
        0 <= resid,
        data.len() == 4 + attribute_bytes(id, format, value).len() + resid,
        data.subrange(4, data.len() - resid) == attribute_bytes(id, format, value),
    ensures
        attribute_with_id(attributes_that_came(data, resid), id) == Some(
            MamRecordModel { id, format: format_code_spec(format), value },
        ),
{
    lemma_pow256();
    let bytes = attribute_bytes(id, format, value);
    lemma_be_round_trip(id as nat, 2);
    lemma_be_round_trip(value.len(), 2);
    assert(be_bytes(id as nat, 2).len() == 2 && be_bytes(value.len(), 2).len() == 2);
    assert(bytes.subrange(0, 2) =~= be_bytes(id as nat, 2));
    assert(bytes.subrange(3, 5) =~= be_bytes(value.len(), 2));
    assert(bytes.subrange(5, 5 + value.len() as int) =~= value);
    assert(bytes[2] == format_code_spec(format));
    let one = MamRecordModel { id, format: format_code_spec(format), value };
    let rest = attributes_spec(bytes.subrange(5 + value.len() as int, bytes.len() as int));
    assert(attributes_spec(bytes) == seq![one] + rest);
    assert((seq![one] + rest)[0] == one);
}

/// An erase is complete only where the drive has nothing to tell. While it tells of an
/// operation or an erase in progress, the erase goes on, as far as the drive says; anything
/// else that it tells is an error.
pub proof fn erase_is_complete_when_nothing_is_told(sense: Seq<u8>)
    requires
        fixed_sense(sense),
    ensures
        ({
            let key = sense[2] % 16;
            let progressing = (key == 0 || key == 2) && sense[12] == 0 && (sense[13] == 0x16
                || sense[13] == 0x18);
            &&& progressing ==> (long_erase_spec(sense) matches Ok(LongEraseStatus::InProgress {
                progress,
            }) && (sense.len() >= 18 ==> progress is Some && progress->0 == sense[16] * 256
                + sense[17]))
            &&& (long_erase_spec(sense) == Ok::<LongEraseStatus, super::DeviceFault>(
                LongEraseStatus::Complete,
            )) == (key == 0 && sense[12] == 0 && sense[13] == 0)
            &&& !progressing && !(key == 0 && sense[12] == 0 && sense[13] == 0)
                ==> long_erase_spec(sense) is Err
        }),
{
    if sense.len() >= 18 {
        let pair = sense.subrange(16, 18);
        reveal_with_fuel(be_value, 3);
        assert(pair.drop_last().drop_last().len() == 0);
        assert(be_value(pair) == sense[16] * 256 + sense[17]);
    }
}

} // verus!
