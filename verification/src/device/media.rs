//! What a drive says of the cartridge in it.
use vstd::prelude::*;

use super::mtio::TapeStatus;
use super::scsi::{
    ascii_field, ascii_field_spec, parse_sense, record_models, sense_spec, MamAttributeRecord, MamRecordModel, ScsiResult,
};
use super::tape::attribute_with_id;
use super::{MamInfo, MediaInfo, MediaPresence};
use crate::bytes::{be_u64, be_value};
use crate::text::opt_view;

verus! {

/// What the answer to TEST UNIT READY says: ready, no medium, not ready for another
/// reason, or nothing.
pub open spec fn presence_spec(status: u8, sense: Seq<u8>) -> MediaPresence {
    if status == 0 {
        MediaPresence::Loaded
    } else {
        match sense_spec(sense) {
            Some(s) => if s.asc == 0x3a {
                MediaPresence::NotLoaded
            } else if s.key == 0x02 {
                MediaPresence::NotReady
            } else {
                MediaPresence::Unknown
            },
            None => MediaPresence::Unknown,
        }
    }
}

/// Whether a cartridge is in the drive, by its answer to TEST UNIT READY.
pub fn presence_of(ready: &ScsiResult) -> (presence: MediaPresence)
    ensures
        presence == presence_spec(ready.status, ready.sense@),
{
    if ready.is_good() {
        return MediaPresence::Loaded;
    }
    match parse_sense(ready.sense.as_slice()) {
        Some(s) => if s.asc == 0x3a {
            MediaPresence::NotLoaded
        } else if s.key == 0x02 {
            MediaPresence::NotReady
        } else {
            MediaPresence::Unknown
        },
        None => MediaPresence::Unknown,
    }
}

/// The text of an attribute.
pub open spec fn text_attribute(list: Seq<MamRecordModel>, id: u16) -> Option<Seq<char>> {
    match attribute_with_id(list, id) {
        Some(a) => Some(ascii_field_spec(a.value)),
        None => None,
    }
}

/// The number of an attribute, where it fits.
pub open spec fn number_attribute(list: Seq<MamRecordModel>, id: u16) -> Option<u64> {
    match attribute_with_id(list, id) {
        Some(a) => if a.value.len() <= 8 {
            Some(be_value(a.value) as u64)
        } else {
            None
        },
        None => None,
    }
}

fn find<'a>(list: &'a Vec<MamAttributeRecord>, id: u16) -> (found: Option<&'a MamAttributeRecord>)
    ensures
        (match found {
            Some(a) => Some(a@),
            None => None,
        }) == attribute_with_id(record_models(list@), id),
{
    let ghost all = record_models(list@);
    let mut i: usize = 0;
    assert(all.subrange(0, all.len() as int) =~= all);
    while i < list.len()
        invariant
            i <= list@.len(),
            all == record_models(list@),
            attribute_with_id(all, id) == attribute_with_id(
                all.subrange(i as int, all.len() as int),
                id,
            ),
        decreases list@.len() - i,
    {
        let ghost rest = all.subrange(i as int, all.len() as int);
        assert(rest[0] == list@[i as int]@);
        assert(rest.drop_first() =~= all.subrange(i + 1, all.len() as int));
        if list[i].id == id {
            return Some(&list[i]);
        }
        i = i + 1;
    }
    None
}

fn text_of(list: &Vec<MamAttributeRecord>, id: u16) -> (text: Option<String>)
    ensures
        opt_view(text) == text_attribute(record_models(list@), id),
{
    match find(list, id) {
        Some(a) => Some(ascii_field(a.value.as_slice())),
        None => None,
    }
}

fn number_of(list: &Vec<MamAttributeRecord>, id: u16) -> (n: Option<u64>)
    ensures
        n == number_attribute(record_models(list@), id),
{
    match find(list, id) {
        Some(a) => if a.value.len() <= 8 {
            Some(be_u64(a.value.as_slice()))
        } else {
            None
        },
        None => None,
    }
}

/// What the memory of a cartridge says of it.
pub open spec fn memory_says(mam: MamInfo, list: Seq<MamRecordModel>) -> bool {
    &&& opt_view(mam.barcode) == text_attribute(list, 0x0806)
    &&& opt_view(mam.volume_identifier) == text_attribute(list, 0x0008)
    &&& opt_view(mam.medium_manufacturer) == text_attribute(list, 0x0400)
    &&& opt_view(mam.medium_serial) == text_attribute(list, 0x0401)
    &&& mam.medium_type == (match number_attribute(list, 0x0408) {
        Some(n) => Some((n % 256) as u8),
        None => None,
    })
    &&& mam.remaining_capacity_mib == number_attribute(list, 0x0000)
    &&& mam.max_capacity_mib == number_attribute(list, 0x0001)
    &&& mam.tape_alert_flags == number_attribute(list, 0x0002)
    &&& mam.load_count == number_attribute(list, 0x0003)
    &&& mam.total_written_mib == number_attribute(list, 0x0220)
    &&& mam.total_read_mib == number_attribute(list, 0x0221)
}

/// What the memory of a cartridge says of it.
pub fn memory_of(list: &Vec<MamAttributeRecord>) -> (mam: MamInfo)
    ensures
        memory_says(mam, record_models(list@)),
{
    MamInfo {
        barcode: text_of(list, 0x0806),
        volume_identifier: text_of(list, 0x0008),
        medium_manufacturer: text_of(list, 0x0400),
        medium_serial: text_of(list, 0x0401),
        medium_type: match number_of(list, 0x0408) {
            Some(n) => Some((n % 256) as u8),
            None => None,
        },
        remaining_capacity_mib: number_of(list, 0x0000),
        max_capacity_mib: number_of(list, 0x0001),
        load_count: number_of(list, 0x0003),
        tape_alert_flags: number_of(list, 0x0002),
        total_written_mib: number_of(list, 0x0220),
        total_read_mib: number_of(list, 0x0221),
    }
}

/// What is known of the cartridge in a drive: the status of the tape is asked for only
/// where the drive is ready.
pub fn inspect_media(
    ready: &ScsiResult,
    status: Option<TapeStatus>,
    density_code: Option<u8>,
    memory: Option<Vec<MamAttributeRecord>>,
) -> (media: MediaInfo)
    ensures
        media.presence == presence_spec(ready.status, ready.sense@),
        media.tape_status == (if ready.status == 0 {
            status
        } else {
            None
        }),
        media.density_code == density_code,
        match memory {
            Some(list) => media.mam is Some && memory_says(media.mam->0, record_models(list@)),
            None => media.mam is None,
        },
{
    let presence = presence_of(ready);
    let tape_status = if ready.is_good() {
        status
    } else {
        None
    };
    let mam = match memory {
        Some(list) => Some(memory_of(&list)),
        None => None,
    };
    MediaInfo { presence, tape_status, density_code, mam }
}

} // verus!
