//! What a tape session sends to a drive, and what it makes of the answers.
use vstd::prelude::*;
use vstd::string::*;

use super::scsi::{
    parse_sense, received, received_spec, sense_spec, MamAttributeRecord, MamRecordModel,
};
use super::{Error, DeviceFault};
use crate::bytes::{append_bytes, be_bytes, be_pair, be_value, to_be};
use crate::text::{cat6, hex_padded, hex_spec};

verus! {

/// The longest record that is read.
pub const READ_BUF_LEN: usize = 1048576;

/// A record of a tape.
#[derive(Debug, Clone, PartialEq, Eq)]
pub enum ReadRecord {
    Data(Vec<u8>),
    Filemark,
    Eod,
}

#[derive(Debug, Clone, Copy, PartialEq, Eq, Structural)]
pub enum MamAttributeFormat {
    Binary,
    Ascii,
    Text,
}

/// The code of a format.
pub open spec fn format_code_spec(format: MamAttributeFormat) -> u8 {
    match format {
        MamAttributeFormat::Binary => 0,
        MamAttributeFormat::Ascii => 1,
        MamAttributeFormat::Text => 2,
    }
}

pub fn format_code(format: MamAttributeFormat) -> (code: u8)
    ensures
        code == format_code_spec(format),
{
    match format {
        MamAttributeFormat::Binary => 0,
        MamAttributeFormat::Ascii => 1,
        MamAttributeFormat::Text => 2,
    }
}

#[derive(Debug, Clone, Copy, PartialEq, Eq, Structural)]
pub enum LongEraseStatus {
    InProgress { progress: Option<u16> },
    Complete,
}

/// The descriptor of an attribute that is written: identifier, format, length, value. An
/// error where the value does not fit in 16 bits of length.
pub fn mam_descriptor(id: u16, format: MamAttributeFormat, value: &[u8]) -> (result: Result<
    Vec<u8>,
    Error,
>)
    ensures
        match result {
            Ok(bytes) => value@.len() <= 0xffff && bytes@ == be_bytes(id as nat, 2) + seq![
                format_code_spec(format),
            ] + be_bytes(value@.len(), 2) + value@,
            Err(e) => value@.len() > 0xffff && e@ == DeviceFault::Protocol(
                "MAM attribute value 过长"@,
            ),
        },
{
    if value.len() > 0xffff {
        return Err(Error::Protocol("MAM attribute value 过长".to_owned()));
    }
    let mut bytes = to_be(id as u64, 2);
    let ghost head = bytes@;
    bytes.push(format_code(format));
    assert(bytes@ =~= head + seq![format_code_spec(format)]);
    append_bytes(&mut bytes, to_be(value.len() as u64, 2).as_slice());
    append_bytes(&mut bytes, value);
    Ok(bytes)
}

/// The first attribute with the given identifier.
pub open spec fn attribute_with_id(list: Seq<MamRecordModel>, id: u16) -> Option<MamRecordModel>
    decreases list.len(),
{
    if list.len() == 0 {
        None
    } else if list[0].id == id {
        Some(list[0])
    } else {
        attribute_with_id(list.drop_first(), id)
    }
}

/// The value of the first attribute with the given identifier; an error where there is none.
pub fn attribute_value_of(list: &Vec<MamAttributeRecord>, id: u16) -> (result: Result<
    Vec<u8>,
    Error,
>)
    ensures
        match (result, attribute_with_id(super::scsi::record_models(list@), id)) {
            (Ok(value), Some(a)) => value@ == a.value,
            (Err(e), None) => e@ == DeviceFault::Protocol(
                "MAM attribute 0x"@ + hex_spec(id as nat, 4) + " 不存在"@,
            ),
            _ => false,
        },
{
    let ghost all = super::scsi::record_models(list@);
    let mut i: usize = 0;
    assert(all.subrange(0, all.len() as int) =~= all);
    while i < list.len()
        invariant
            i <= list@.len(),
            all == super::scsi::record_models(list@),
            attribute_with_id(all, id) == attribute_with_id(
                all.subrange(i as int, all.len() as int),
                id,
            ),
        decreases list@.len() - i,
    {
        let ghost rest = all.subrange(i as int, all.len() as int);
        assert(rest[0] == list@[i as int]@);
        assert(rest.drop_first() =~= all.subrange(i + 1, all.len() as int));
        if list[i].id == id {
            return Ok(vstd::slice::slice_to_vec(list[i].value.as_slice()));
        }
        i = i + 1;
    }
    Err(
        Error::Protocol(
            crate::text::cat3(
                "MAM attribute 0x",
                hex_padded(id as u64, 4).as_str(),
                " 不存在",
            ),
        ),
    )
}

/// The parameter list that selects variable blocks and keeps the density.
pub fn variable_block_page(density: u8) -> (data: [u8; 12])
    ensures
        data@ == seq![0u8, 0u8, 0x10u8, 8u8, density, 0u8, 0u8, 0u8, 0u8, 0u8, 0u8, 0u8],
{
    let data: [u8; 12] = [0, 0, 0x10, 8, density, 0, 0, 0, 0, 0, 0, 0];
    assert(data@ =~= seq![0u8, 0u8, 0x10u8, 8u8, density, 0u8, 0u8, 0u8, 0u8, 0u8, 0u8, 0u8]);
    data
}

/// The append-only mode of a device configuration extension page is off.
pub open spec fn writes_anywhere(page: Seq<u8>) -> bool {
    page[21] / 16 == 0
}

/// The page that switches append-only mode off.
pub open spec fn write_anywhere_spec(page: Seq<u8>) -> Seq<u8> {
    page.update(0, 0).update(1, 0).update(16, (page[16] % 128) as u8).update(
        21,
        (page[21] % 16) as u8,
    )
}

/// Whether append-only mode has to be switched off.
pub fn needs_write_anywhere(page: &Vec<u8>) -> (needed: bool)
    requires
        page@.len() == 48,
    ensures
        needed == !writes_anywhere(page@),
{
    page[21] / 16 != 0
}

/// Makes the page that switches append-only mode off: length zeroed, PS bit cleared,
/// append-only field zeroed.
pub fn set_write_anywhere(page: &mut Vec<u8>)
    requires
        old(page)@.len() == 48,
    ensures
        final(page)@ == write_anywhere_spec(old(page)@),
{
    let flags: u8 = page[16] % 128;
    let mode: u8 = page[21] % 16;
    page.set(0, 0);
    page.set(1, 0);
    page.set(16, flags);
    page.set(21, mode);
}

/// The drive can have an extra partition: the page is the medium partition page, and the
/// largest number of additional partitions is not zero.
pub open spec fn can_partition(page: Seq<u8>) -> bool {
    page.len() >= 28 && page[16] % 64 == 0x11 && page[18] != 0
}

/// The page that asks for two partitions: the first as small as possible, the second
/// with the rest of the capacity.
pub open spec fn ltfs_partition_page(page: Seq<u8>) -> Seq<u8> {
    page.update(0, 0).update(1, 0).update(16, (page[16] % 128) as u8).update(19, 1).update(
        20,
        (0x20 + page[20] % 32) as u8,
    ).update(22, 0x09).update(24, 0).update(25, 1).update(26, 0xff).update(27, 0xff)
}

/// Changes a medium partition page so that it asks for the LTFS layout; an error, with
/// the page unchanged, where the drive cannot have an extra partition.
pub fn configure_ltfs_partition_page(page: &mut Vec<u8>) -> (result: Result<(), Error>)
    ensures
        match result {
            Ok(_) => can_partition(old(page)@) && final(page)@ == ltfs_partition_page(old(page)@),
            Err(e) => !can_partition(old(page)@) && final(page)@ == old(page)@ && e@
                == DeviceFault::Protocol("驱动器不支持创建 LTFS 所需的额外分区"@),
        },
{
    if page.len() < 28 || page[16] % 64 != 0x11 || page[18] == 0 {
        return Err(
            Error::Protocol("驱动器不支持创建 LTFS 所需的额外分区".to_owned()),
        );
    }
    let flags: u8 = page[16] % 128;
    let layout: u8 = 0x20 + page[20] % 32;
    page.set(0, 0);
    page.set(1, 0);
    page.set(16, flags);
    page.set(19, 1);
    page.set(20, layout);
    page.set(22, 0x09);
    page.set(24, 0);
    page.set(25, 1);
    page.set(26, 0xff);
    page.set(27, 0xff);
    Ok(())
}

/// How much of a medium partition page is sent: what it declares, but at least 28 bytes
/// and at most what there is.
pub fn partition_page_length(page: &Vec<u8>) -> (length: usize)
    requires
        page@.len() >= 28,
    ensures
        length == (if 18 + page@[17] <= 28 {
            28
        } else if 18 + page@[17] <= page@.len() {
            18 + page@[17]
        } else {
            page@.len() as int
        }),
{
    let declared: usize = 18 + page[17] as usize;
    let wanted: usize = if declared < 28 { 28 } else { declared };
    if wanted < page.len() { wanted } else { page.len() }
}

/// What sense data says of a long erase.
pub open spec fn long_erase_spec(sense: Seq<u8>) -> Result<LongEraseStatus, DeviceFault> {
    match sense_spec(sense) {
        None => Ok(LongEraseStatus::Complete),
        Some(s) => if (s.key == 0x00 || s.key == 0x02) && s.asc == 0 && (s.ascq == 0x16 || s.ascq
            == 0x18) {
            Ok(
                LongEraseStatus::InProgress {
                    progress: if sense.len() >= 18 {
                        Some(be_value(sense.subrange(16, 18)) as u16)
                    } else {
                        None
                    },
                },
            )
        } else if s.key == 0 && s.asc == 0 && s.ascq == 0 {
            Ok(LongEraseStatus::Complete)
        } else {
            Err(
                DeviceFault::Protocol(
                    "long erase 返回异常 sense: key=0x"@ + hex_spec(s.key as nat, 2) + " asc=0x"@
                        + hex_spec(s.asc as nat, 2) + " ascq=0x"@ + hex_spec(s.ascq as nat, 2),
                ),
            )
        },
    }
}

/// What sense data says of a long erase. Drives report progress with the key NO SENSE or
/// NOT READY.
pub fn classify_long_erase_sense(sense: &[u8]) -> (result: Result<LongEraseStatus, Error>)
    ensures
        match result {
            Ok(status) => long_erase_spec(sense@) == Ok::<LongEraseStatus, DeviceFault>(status),
            Err(e) => long_erase_spec(sense@) == Err::<LongEraseStatus, DeviceFault>(e@),
        },
{
    let parsed = match parse_sense(sense) {
        Some(parsed) => parsed,
        None => {
            return Ok(LongEraseStatus::Complete);
        },
    };
    if (parsed.key == 0x00 || parsed.key == 0x02) && parsed.asc == 0 && (parsed.ascq == 0x16
        || parsed.ascq == 0x18) {
        let progress: Option<u16> = if sense.len() >= 18 {
            assert(seq![sense@[16], sense@[17]] =~= sense@.subrange(16, 18));
            Some(be_pair(sense[16], sense[17]))
        } else {
            None
        };
        return Ok(LongEraseStatus::InProgress { progress });
    }
    if parsed.key == 0 && parsed.asc == 0 && parsed.ascq == 0 {
        return Ok(LongEraseStatus::Complete);
    }
    Err(
        Error::Protocol(
            cat6(
                "long erase 返回异常 sense: key=0x",
                hex_padded(parsed.key as u64, 2).as_str(),
                " asc=0x",
                hex_padded(parsed.asc as u64, 2).as_str(),
                " ascq=0x",
                hex_padded(parsed.ascq as u64, 2).as_str(),
            ),
        ),
    )
}

/// What became of a READ.
#[derive(Debug, Clone, Copy, PartialEq, Eq, Structural)]
pub enum ReadOutcome {
    /// That many bytes of the buffer are the record.
    Data(usize),
    Filemark,
    Eod,
    /// The record is longer than the buffer.
    TooLong,
    Failed,
}

/// A READ that is not GOOD met a file mark, blank tape, or a record of another length.
pub open spec fn read_spec(status: u8, resid: i32, sense: Seq<u8>) -> ReadOutcome {
    let len = received_spec(READ_BUF_LEN as nat, resid);
    if status == 0 {
        ReadOutcome::Data(len as usize)
    } else {
        match sense_spec(sense) {
            None => ReadOutcome::Failed,
            Some(s) => {
                let flags = if sense.len() > 2 {
                    sense[2]
                } else {
                    0
                };
                if flags >= 128 {
                    ReadOutcome::Filemark
                } else if s.key == 0x08 {
                    ReadOutcome::Eod
                } else if flags / 32 % 2 == 1 {
                    if len == 0 {
                        ReadOutcome::TooLong
                    } else {
                        ReadOutcome::Data(len as usize)
                    }
                } else {
                    ReadOutcome::Failed
                }
            },
        }
    }
}

/// What became of a READ into a buffer of `READ_BUF_LEN` bytes.
pub fn classify_read(status: u8, resid: i32, sense: &[u8]) -> (outcome: ReadOutcome)
    ensures
        outcome == read_spec(status, resid, sense@),
{
    let len: usize = received(READ_BUF_LEN, resid);
    if status == 0 {
        return ReadOutcome::Data(len);
    }
    match parse_sense(sense) {
        None => ReadOutcome::Failed,
        Some(s) => {
            let flags: u8 = if sense.len() > 2 { sense[2] } else { 0 };
            if flags >= 128 {
                ReadOutcome::Filemark
            } else if s.key == 0x08 {
                ReadOutcome::Eod
            } else if flags / 32 % 2 == 1 {
                if len == 0 {
                    ReadOutcome::TooLong
                } else {
                    ReadOutcome::Data(len)
                }
            } else {
                ReadOutcome::Failed
            }
        },
    }
}

/// Whether a LOCATE has to change the partition, given the one that the session knows.
pub fn changes_partition(known: Option<u32>, partition: u8) -> (change: bool)
    ensures
        change == (known != Some(partition as u32)),
{
    match known {
        Some(p) => p != partition as u32,
        None => true,
    }
}

} // verus!
