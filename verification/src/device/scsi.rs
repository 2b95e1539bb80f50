//! SCSI command blocks and responses.
use vstd::prelude::*;
use vstd::string::*;

use crate::bytes::{be_pair, be_u64, be_value};
use crate::ltfs::label::{text_until_nul, until_nul};
use crate::text::{trim_end, trimmed_end};

verus! {

/// The page of the unit serial number.
pub const VPD_SERIAL: u8 = 0x80;

/// What the transport reports of a command; status 0 is GOOD.
#[derive(Debug, Clone, PartialEq, Eq)]
pub struct ScsiResult {
    pub status: u8,
    pub host_status: u16,
    pub driver_status: u16,
    pub resid: i32,
    /// The sense data of a CHECK CONDITION, as it came.
    pub sense: Vec<u8>,
}

impl ScsiResult {
    pub fn is_good(&self) -> (good: bool)
        ensures
            good == (self.status == 0),
    {
        self.status == 0
    }
}

/// The number of bytes that came of a buffer of `len`, given the residue.
pub open spec fn received_spec(len: nat, resid: i32) -> nat {
    if resid <= 0 {
        len
    } else if resid as int >= len {
        0
    } else {
        (len - resid) as nat
    }
}

/// The number of bytes that came of a buffer.
pub fn received(len: usize, resid: i32) -> (n: usize)
    ensures
        n == received_spec(len as nat, resid),
{
    if resid <= 0 {
        len
    } else if resid as u64 >= len as u64 {
        0
    } else {
        len - resid as usize
    }
}

/// The command block of an INQUIRY for `len` bytes, of a vital product data page where
/// `evpd` is set.
pub fn inquiry_cdb(evpd: bool, page_code: u8, len: u16) -> (cdb: [u8; 6])
    ensures
        cdb@ == seq![
            0x12u8,
            (if evpd {
                1u8
            } else {
                0u8
            }),
            page_code,
            (len / 256) as u8,
            (len % 256) as u8,
            0u8,
        ],
{
    let cdb: [u8; 6] = [
        0x12,
        if evpd { 1 } else { 0 },
        page_code,
        (len / 256) as u8,
        (len % 256) as u8,
        0,
    ];
    assert(cdb@ =~= seq![
        0x12u8,
        (if evpd {
            1u8
        } else {
            0u8
        }),
        page_code,
        (len / 256) as u8,
        (len % 256) as u8,
        0u8,
    ]);
    cdb
}

/// A text field of fixed width: what stands before the first zero byte, without the white
/// space at its end.
pub open spec fn ascii_field_spec(bytes: Seq<u8>) -> Seq<char> {
    trimmed_end(until_nul(bytes))
}

/// A text field of fixed width.
pub fn ascii_field(bytes: &[u8]) -> (text: String)
    ensures
        text@ == trimmed_end(until_nul(bytes@)),
{
    trim_end(text_until_nul(bytes).as_str())
}

/// A field of a response; empty where the response is too short for it.
pub open spec fn response_field(buf: Seq<u8>, from: int, to: int) -> Seq<char> {
    if to <= buf.len() {
        ascii_field_spec(buf.subrange(from, to))
    } else {
        ascii_field_spec(Seq::empty())
    }
}

fn field_at(buf: &[u8], from: usize, to: usize) -> (text: String)
    requires
        from <= to,
    ensures
        text@ == response_field(buf@, from as int, to as int),
{
    if to <= buf.len() {
        ascii_field(vstd::slice::slice_subrange(buf, from, to))
    } else {
        let none = vstd::slice::slice_subrange(buf, 0, 0);
        assert(none@ =~= Seq::<u8>::empty());
        ascii_field(none)
    }
}

/// Vendor, product and revision of a standard INQUIRY response.
pub fn parse_standard_inquiry(buf: &[u8]) -> (identity: (String, String, String))
    ensures
        identity.0@ == response_field(buf@, 8, 16),
        identity.1@ == response_field(buf@, 16, 32),
        identity.2@ == response_field(buf@, 32, 36),
{
    (field_at(buf, 8, 16), field_at(buf, 16, 32), field_at(buf, 32, 36))
}

/// The serial number on a unit serial number page: the length stands in bytes 2 and 3.
pub open spec fn serial_spec(buf: Seq<u8>) -> Seq<char> {
    if buf.len() < 4 || buf[1] != VPD_SERIAL {
        Seq::empty()
    } else {
        let end = 4 + be_value(buf.subrange(2, 4));
        ascii_field_spec(
            buf.subrange(
                4,
                if end < buf.len() {
                    end as int
                } else {
                    buf.len() as int
                },
            ),
        )
    }
}

/// The serial number on a unit serial number page; empty where it is another page.
pub fn parse_serial(buf: &[u8]) -> (serial: String)
    ensures
        serial@ == serial_spec(buf@),
{
    if buf.len() < 4 || buf[1] != VPD_SERIAL {
        return String::new();
    }
    let len: usize = be_pair(buf[2], buf[3]) as usize;
    assert(seq![buf@[2], buf@[3]] =~= buf@.subrange(2, 4));
    let end: usize = if 4 + len < buf.len() { 4 + len } else { buf.len() };
    ascii_field(vstd::slice::slice_subrange(buf, 4, end))
}

/// The key and the additional codes of sense data.
#[derive(Debug, Clone, Copy, PartialEq, Eq, Structural)]
pub struct Sense {
    pub key: u8,
    pub asc: u8,
    pub ascq: u8,
}

/// Fixed-format sense data has response codes 70h and 71h, descriptor format 72h and 73h.
pub open spec fn sense_spec(sense: Seq<u8>) -> Option<Sense> {
    if sense.len() == 0 {
        None
    } else {
        let code = sense[0] % 128;
        if (code == 0x70 || code == 0x71) && sense.len() >= 14 {
            Some(Sense { key: (sense[2] % 16) as u8, asc: sense[12], ascq: sense[13] })
        } else if (code == 0x72 || code == 0x73) && sense.len() >= 4 {
            Some(Sense { key: (sense[1] % 16) as u8, asc: sense[2], ascq: sense[3] })
        } else {
            None
        }
    }
}

/// Reads sense data; `None` where it is too short or of another format.
pub fn parse_sense(sense: &[u8]) -> (parsed: Option<Sense>)
    ensures
        parsed == sense_spec(sense@),
{
    if sense.len() == 0 {
        return None;
    }
    let code: u8 = sense[0] % 128;
    if (code == 0x70 || code == 0x71) && sense.len() >= 14 {
        Some(Sense { key: sense[2] % 16, asc: sense[12], ascq: sense[13] })
    } else if (code == 0x72 || code == 0x73) && sense.len() >= 4 {
        Some(Sense { key: sense[1] % 16, asc: sense[2], ascq: sense[3] })
    } else {
        None
    }
}

/// The density code of a MODE SENSE(6) response with a block descriptor.
pub fn parse_mode_sense_density(buf: &[u8]) -> (density: Option<u8>)
    ensures
        density == (if buf@.len() >= 12 && buf@[3] >= 8 {
            Some(buf@[4])
        } else {
            None
        }),
{
    if buf.len() >= 12 && buf[3] >= 8 {
        Some(buf[4])
    } else {
        None
    }
}

/// A partition and a block.
#[derive(Debug, Clone, Copy, PartialEq, Eq, Structural)]
pub struct TapePosition {
    pub partition: u32,
    pub block: u64,
}

/// The long form of a READ POSITION response: the partition in bytes 4 to 7, the block
/// in bytes 8 to 15.
pub open spec fn position_spec(buf: Seq<u8>) -> Option<TapePosition> {
    if buf.len() < 24 {
        None
    } else {
        Some(
            TapePosition {
                partition: be_value(buf.subrange(4, 8)) as u32,
                block: be_value(buf.subrange(8, 16)) as u64,
            },
        )
    }
}

/// Reads a position; `None` where the response is shorter than 24 bytes.
pub fn parse_read_position(buf: &[u8]) -> (position: Option<TapePosition>)
    ensures
        position == position_spec(buf@),
{
    if buf.len() < 24 {
        return None;
    }
    proof {
        crate::bytes::lemma_pow256();
        crate::bytes::lemma_be_value_bound(buf@.subrange(4, 8));
    }
    let partition: u64 = be_u64(vstd::slice::slice_subrange(buf, 4, 8));
    let block: u64 = be_u64(vstd::slice::slice_subrange(buf, 8, 16));
    Some(TapePosition { partition: partition as u32, block })
}

/// An attribute of a READ ATTRIBUTE response.
#[derive(Debug, Clone, PartialEq, Eq)]
pub struct MamAttributeRecord {
    pub id: u16,
    pub format: u8,
    pub value: Vec<u8>,
}

/// The model of an attribute.
#[verifier::ext_equal]
pub struct MamRecordModel {
    pub id: u16,
    pub format: u8,
    pub value: Seq<u8>,
}

impl View for MamAttributeRecord {
    type V = MamRecordModel;

    open spec fn view(&self) -> MamRecordModel {
        MamRecordModel { id: self.id, format: self.format, value: self.value@ }
    }
}

pub open spec fn record_models(list: Seq<MamAttributeRecord>) -> Seq<MamRecordModel> {
    list.map_values(|a: MamAttributeRecord| a@)
}

/// The attributes in a sequence of bytes: an identifier in two bytes, a format in the low
/// bits of one, a length in two, and that many bytes. What is cut off is left out.
pub open spec fn attributes_spec(data: Seq<u8>) -> Seq<MamRecordModel>
    decreases data.len(),
{
    if data.len() < 5 {
        Seq::empty()
    } else {
        let len = be_value(data.subrange(3, 5)) as int;
        if data.len() < 5 + len {
            Seq::empty()
        } else {
            seq![
                MamRecordModel {
                    id: be_value(data.subrange(0, 2)) as u16,
                    format: (data[2] % 4) as u8,
                    value: data.subrange(5, 5 + len),
                },
            ] + attributes_spec(data.subrange(5 + len, data.len() as int))
        }
    }
}

/// Reads the attributes behind the four-byte header of a response.
pub fn parse_mam_attributes(buf: &[u8]) -> (list: Vec<MamAttributeRecord>)
    ensures
        record_models(list@) == (if buf@.len() < 4 {
            Seq::empty()
        } else {
            attributes_spec(buf@.subrange(4, buf@.len() as int))
        }),
{
    let mut list: Vec<MamAttributeRecord> = Vec::new();
    assert(record_models(list@) =~= Seq::<MamRecordModel>::empty());
    if buf.len() < 4 {
        return list;
    }
    let ghost body = buf@.subrange(4, buf@.len() as int);
    let mut offset: usize = 4;
    assert(Seq::<MamRecordModel>::empty() + attributes_spec(body) =~= attributes_spec(body));
    while buf.len() - offset >= 5
        invariant
            4 <= offset <= buf@.len(),
            body == buf@.subrange(4, buf@.len() as int),
            attributes_spec(body) == record_models(list@) + attributes_spec(
                buf@.subrange(offset as int, buf@.len() as int),
            ),
        decreases buf@.len() - offset,
    {
        let ghost rest = buf@.subrange(offset as int, buf@.len() as int);
        let id: u16 = be_pair(buf[offset], buf[offset + 1]);
        let len: usize = be_pair(buf[offset + 3], buf[offset + 4]) as usize;
        proof {
            assert(rest.subrange(0, 2) =~= seq![buf@[offset as int], buf@[offset + 1]]);
            assert(rest.subrange(3, 5) =~= seq![buf@[offset + 3], buf@[offset + 4]]);
        }
        if buf.len() - offset - 5 < len {
            assert(record_models(list@) + Seq::<MamRecordModel>::empty() =~= record_models(list@));
            return list;
        }
        let value = vstd::slice::slice_to_vec(
            vstd::slice::slice_subrange(buf, offset + 5, offset + 5 + len),
        );
        let record = MamAttributeRecord { id, format: buf[offset + 2] % 4, value };
        let ghost before = list@;
        list.push(record);
        proof {
            assert(value@ =~= rest.subrange(5, 5 + len));
            let tail = buf@.subrange(offset + 5 + len, buf@.len() as int);
            assert(rest.subrange(5 + len, rest.len() as int) =~= tail);
            assert(record_models(before) + (seq![record@] + attributes_spec(tail))
                =~= record_models(list@) + attributes_spec(tail));
        }
        offset = offset + 5 + len;
    }
    assert(record_models(list@) + Seq::<MamRecordModel>::empty() =~= record_models(list@));
    list
}

} // verus!
