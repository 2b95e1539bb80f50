//! What the memory of a cartridge says is what was written to it.
use vstd::prelude::*;
use vstd::utf8::*;

use super::format_law::{lemma_ascii_text, lemma_until_nul};
use crate::bytes::be_value;
use crate::device::media::{memory_says, presence_spec};
use crate::device::scsi::MamRecordModel;
use crate::device::tape::attribute_with_id;
use crate::device::{MamInfo, MediaPresence};
use crate::ltfs::label::{is_barcode, is_barcode_byte, until_nul};
use crate::ltfs::mam::{host_attributes, BARCODE};
use crate::text::{is_space, opt_view, trimmed_end};

verus! {

/// The attribute at `i` is the first with its number.
pub open spec fn comes_first(list: Seq<MamRecordModel>, i: int) -> bool {
    &&& 0 <= i < list.len()
    &&& forall|j: int| 0 <= j < i ==> (#[trigger] list[j]).id != list[i].id
}

proof fn lemma_first(list: Seq<MamRecordModel>, i: int)
    requires
        comes_first(list, i),
    ensures
        attribute_with_id(list, list[i].id) == Some(list[i]),
    decreases i,
{
    if i > 0 {
        let rest = list.drop_first();
        assert(list[0].id != list[i].id);
        assert(rest[i - 1] == list[i]);
        assert forall|j: int| 0 <= j < i - 1 implies (#[trigger] rest[j]).id != rest[i - 1].id by {
            assert(rest[j] == list[j + 1]);
        }
        lemma_first(rest, i - 1);
    }
}

proof fn lemma_blanks_go(text: Seq<char>, n: nat)
    requires
        text.len() > 0,
        !is_space(text.last()),
    ensures
        trimmed_end(text + Seq::new(n, |i: int| ' ')) == text,
    decreases n,
{
    let all = text + Seq::new(n, |i: int| ' ');
    if n == 0 {
        assert(all =~= text);
    } else {
        lemma_blanks_go(text, (n - 1) as nat);
        assert(all.drop_last() =~= text + Seq::new((n - 1) as nat, |i: int| ' '));
        assert(all.last() == ' ');
    }
}

/// The barcode that a format writes to the memory of a cartridge is the one that is read of
/// it, whatever other attributes there are.
pub proof fn written_barcode_is_remembered(
    volume_name: Seq<char>,
    barcode: Seq<char>,
    uuid: Seq<char>,
    version: Seq<char>,
    time: Seq<char>,
    list: Seq<MamRecordModel>,
    i: int,
    k: int,
    mam: MamInfo,
)
    requires
        is_barcode(barcode),
        comes_first(list, i),
        ({
            let written = host_attributes(volume_name, barcode, uuid, version, time);
            &&& 0 <= k < written.len()
            &&& written[k].id == BARCODE
            &&& list[i].id == written[k].id
            &&& list[i].value == written[k].value
        }),
        memory_says(mam, list),
    ensures
        opt_view(mam.barcode) == Some(barcode),
{
    lemma_first(list, i);
    let bytes = encode_utf8(barcode);
    let value = list[i].value;
    assert forall|j: int| 0 <= j < bytes.len() implies #[trigger] bytes[j] < 128 by {
        assert(is_barcode_byte(bytes[j]));
    }
    lemma_ascii_text(barcode);
    assert(value.len() == 32);
    assert forall|j: int| 0 <= j < value.len() implies #[trigger] value[j] != 0 by {
        if j < bytes.len() {
            assert(is_barcode_byte(bytes[j]));
            assert(value[j] == bytes[j]);
        }
    }
    lemma_until_nul(value);
    let blanks = Seq::new(26, |j: int| ' ');
    assert(until_nul(value) =~= barcode + blanks) by {
        assert forall|j: int| 0 <= j < 32 implies until_nul(value)[j] == (barcode + blanks)[j] by {
            if j < 6 {
                assert(value[j] == bytes[j]);
                assert(barcode[j] == bytes[j] as char);
            } else {
                assert(value[j] == 32u8);
            }
        }
    }
    assert(is_barcode_byte(bytes[5]));
    assert(barcode.last() == bytes[5] as char);
    lemma_blanks_go(barcode, 26);
}

/// The figures of a cartridge stand under their numbers: 0 what is left, 1 what it can hold,
/// 3 how often it was loaded, 220h and 221h what was written and read in its life.
pub proof fn figures_have_their_numbers(list: Seq<MamRecordModel>, i: int, mam: MamInfo)
    requires
        comes_first(list, i),
        list[i].value.len() <= 8,
        memory_says(mam, list),
    ensures
        ({
            let n = Some(be_value(list[i].value) as u64);
            &&& list[i].id == 0 ==> mam.remaining_capacity_mib == n
            &&& list[i].id == 1 ==> mam.max_capacity_mib == n
            &&& list[i].id == 2 ==> mam.tape_alert_flags == n
            &&& list[i].id == 3 ==> mam.load_count == n
            &&& list[i].id == 0x220 ==> mam.total_written_mib == n
            &&& list[i].id == 0x221 ==> mam.total_read_mib == n
        }),
{
    lemma_first(list, i);
}

/// A cartridge counts as loaded exactly where the drive says that it is ready.
pub proof fn ready_drive_is_loaded(status: u8, sense: Seq<u8>)
    ensures
        presence_spec(status, sense) == MediaPresence::Loaded <==> status == 0,
{
}

} // verus!
