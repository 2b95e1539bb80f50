//! What the health of a drive is told by, and which drive is meant.
use vstd::prelude::*;

use super::drives::{
    counter_delta_spec, has_path, health_spec, path_position, selected_position,
};
use crate::device::channel_error::{channel_page, ChannelCounters, PageKind};
use crate::device::log::{active_codes, counters_spec, ParameterModel};
use crate::device::log_law::{
    flag_is_set, log_page_reads_back, page_bytes, parameters_bytes, set_flags_are_told, values_fit,
};
use crate::device::TapeDrive;
use crate::text::{decimal_spec, lemma_parse_decimal, parse_unsigned_spec};

verus! {

/// Every page of a drive goes to its own part of the report: page 2 tells what was written,
/// page 3 what was read, page 2Eh the alerts, and the two diagnostic pages the channels. Where
/// all are understood there is no warning.
pub proof fn pages_go_to_their_parts(
    write: Seq<ParameterModel>,
    read: Seq<ParameterModel>,
    alerts: Seq<ParameterModel>,
    write_page: Seq<u8>,
    read_page: Seq<u8>,
    write_channels: Seq<ChannelCounters>,
    read_channels: Seq<ChannelCounters>,
)
    requires
        values_fit(write),
        values_fit(read),
        values_fit(alerts),
        parameters_bytes(write).len() < 65536,
        parameters_bytes(read).len() < 65536,
        parameters_bytes(alerts).len() < 65536,
        channel_page(write_page, PageKind::Write) == Ok::<Seq<ChannelCounters>, Seq<char>>(
            write_channels,
        ),
        channel_page(read_page, PageKind::Read) == Ok::<Seq<ChannelCounters>, Seq<char>>(
            read_channels,
        ),
    ensures
        ({
            let h = health_spec(
                Ok(page_bytes(0x02, write)),
                Ok(page_bytes(0x03, read)),
                Ok(page_bytes(0x2e, alerts)),
                Ok(write_page),
                Ok(read_page),
            );
            &&& h.write_errors == Some(counters_spec(write))
            &&& h.read_errors == Some(counters_spec(read))
            &&& h.write_channels == Some(write_channels)
            &&& h.read_channels == Some(read_channels)
            &&& h.warnings.len() == 0
            &&& forall|i: int|
                0 <= i < alerts.len() && flag_is_set(#[trigger] alerts[i])
                    ==> h.tape_alerts.contains(alerts[i].code)
        }),
{
    let none = Seq::<u8>::empty();
    log_page_reads_back(0x02, write, none);
    log_page_reads_back(0x03, read, none);
    log_page_reads_back(0x2e, alerts, none);
    assert(page_bytes(0x02, write) + none =~= page_bytes(0x02, write));
    assert(page_bytes(0x03, read) + none =~= page_bytes(0x03, read));
    assert(page_bytes(0x2e, alerts) + none =~= page_bytes(0x2e, alerts));
    let h = health_spec(
        Ok(page_bytes(0x02, write)),
        Ok(page_bytes(0x03, read)),
        Ok(page_bytes(0x2e, alerts)),
        Ok(write_page),
        Ok(read_page),
    );
    assert forall|i: int|
        0 <= i < alerts.len() && flag_is_set(#[trigger] alerts[i]) implies h.tape_alerts.contains(
        alerts[i].code,
    ) by {
        set_flags_are_told(alerts, i);
        let before = active_codes(alerts.take(i));
        assert(h.tape_alerts[before.len() as int] == alerts[i].code);
    }
}

/// A page that cannot be read leaves its part of the report empty and one warning, and takes
/// nothing from the other parts.
pub proof fn unread_page_leaves_a_warning(
    write: Result<Seq<u8>, Seq<char>>,
    read: Result<Seq<u8>, Seq<char>>,
    alerts: Result<Seq<u8>, Seq<char>>,
    write_page: Result<Seq<u8>, Seq<char>>,
    read_page: Result<Seq<u8>, Seq<char>>,
    fault: Seq<char>,
)
    ensures
        ({
            let h = health_spec(write, read, alerts, write_page, read_page);
            let no_write = health_spec(Err(fault), read, alerts, write_page, read_page);
            let no_read = health_spec(write, Err(fault), alerts, write_page, read_page);
            let no_alerts = health_spec(write, read, Err(fault), write_page, read_page);
            &&& write is Err ==> h.write_errors is None && h.warnings.len() > 0
            &&& read is Err ==> h.read_errors is None && h.warnings.len() > 0
            &&& alerts is Err ==> h.tape_alerts.len() == 0 && h.warnings.len() > 0
            &&& write_page is Err ==> h.write_channels is None && h.warnings.len() > 0
            &&& read_page is Err ==> h.read_channels is None && h.warnings.len() > 0
            &&& no_write.read_errors == h.read_errors && no_write.tape_alerts == h.tape_alerts
                && no_write.write_channels == h.write_channels
            &&& no_read.write_errors == h.write_errors && no_read.tape_alerts == h.tape_alerts
            &&& no_alerts.write_errors == h.write_errors && no_alerts.read_errors == h.read_errors
            &&& h.warnings.len() == 0 ==> h.write_errors is Some && h.read_errors is Some
                && h.write_channels is Some && h.read_channels is Some
        }),
{
}

/// What came to a counter, added to what it was before, gives what it is now; nothing is told
/// of a counter that is not known at both times or that has fallen.
pub proof fn counted_errors_add_up(before: Option<u64>, after: Option<u64>)
    ensures
        match counter_delta_spec(before, after) {
            Some(n) => before is Some && after is Some && before->0 + n == after->0,
            None => before is None || after is None || after->0 < before->0,
        },
{
}

/// A drive is chosen by its number, counted from one, or by any of its device paths, the
/// first drive that has it; without a choice only a drive that is alone is meant.
pub proof fn chosen_drive_is_meant(drives: Seq<TapeDrive>, k: int, path: Seq<char>)
    requires
        0 <= k < drives.len(),
        k < usize::MAX,
        has_path(drives[k], path),
        forall|i: int| 0 <= i < k ==> !has_path(#[trigger] drives[i], path),
        parse_unsigned_spec(path, usize::MAX as nat) is None,
    ensures
        selected_position(drives, Some(decimal_spec((k + 1) as nat))) == Ok::<int, Seq<char>>(k),
        selected_position(drives, Some(path)) == Ok::<int, Seq<char>>(k),
        selected_position(drives, Some(decimal_spec(0))) is Err,
        selected_position(drives, None) is Ok <==> drives.len() == 1,
{
    lemma_parse_decimal((k + 1) as nat, usize::MAX as nat);
    lemma_parse_decimal(0, usize::MAX as nat);
    lemma_first_with_path(drives, k, path);
}

proof fn lemma_first_with_path(drives: Seq<TapeDrive>, k: int, path: Seq<char>)
    requires
        0 <= k < drives.len(),
        has_path(drives[k], path),
        forall|i: int| 0 <= i < k ==> !has_path(#[trigger] drives[i], path),
    ensures
        path_position(drives, path) == k,
    decreases k,
{
    if k > 0 {
        let rest = drives.drop_first();
        assert(!has_path(drives[0], path));
        assert(rest[k - 1] == drives[k]);
        assert forall|i: int| 0 <= i < k - 1 implies !has_path(#[trigger] rest[i], path) by {
            assert(rest[i] == drives[i + 1]);
        }
        lemma_first_with_path(rest, k - 1, path);
    }
}

} // verus!
