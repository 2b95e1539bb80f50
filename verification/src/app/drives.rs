//! Choosing a drive, and the health of drive and medium.
use vstd::prelude::*;
use vstd::string::*;

use crate::device::channel_error::{
    self, channel_page, deltas, page_code_spec, worst_rate, worst_rate_spec, ChannelCounters,
    ChannelDelta, ChannelRate, PageKind,
};
use crate::device::log::{
    active_codes, active_tape_alerts, counters_spec, error_counters, page_spec, parse_page,
    ErrorCounters, ParseError,
};
use crate::device::TapeDrive;
use crate::paths::{same_path, same_path_spec};
use crate::text::{
    cat2, cat3, cat4, cat5, decimal, decimal_spec, hex_padded, hex_spec, parse_unsigned,
    parse_unsigned_spec, views,
};

verus! {

/// The drive has this device path.
pub open spec fn has_path(drive: TapeDrive, path: Seq<char>) -> bool {
    same_path_spec(path, drive.nst_path@) || same_path_spec(path, drive.st_path@)
        || same_path_spec(path, drive.sg_path@)
}

/// The position of the first drive with a device path, or their number.
pub open spec fn path_position(drives: Seq<TapeDrive>, path: Seq<char>) -> int
    decreases drives.len(),
{
    if drives.len() == 0 || has_path(drives[0], path) {
        0
    } else {
        1 + path_position(drives.drop_first(), path)
    }
}

/// Which drive a selector stands for: a number counted from one, or a device path. Without
/// a selector the only drive is meant.
pub open spec fn selected_position(drives: Seq<TapeDrive>, selector: Option<Seq<char>>) -> Result<
    int,
    Seq<char>,
> {
    match selector {
        None => if drives.len() == 1 {
            Ok(0)
        } else if drives.len() == 0 {
            Err("系统上未发现磁带机。"@)
        } else {
            Err("系统上有多台磁带机，请用 `tapecpy info <选择器>` 指定一台。"@)
        },
        Some(text) => match parse_unsigned_spec(text, usize::MAX as nat) {
            Some(n) => if 1 <= n <= drives.len() {
                Ok(n - 1)
            } else {
                Err(
                    "序号 "@ + decimal_spec(n) + " 超出范围（共 "@ + decimal_spec(drives.len())
                        + " 台）。"@,
                )
            },
            None => {
                let k = path_position(drives, text);
                if k < drives.len() {
                    Ok(k)
                } else {
                    Err("找不到设备 `"@ + text + "`。"@)
                }
            },
        },
    }
}

/// The drive that a selector stands for.
pub fn select_drive<'a>(drives: &'a Vec<TapeDrive>, selector: Option<&str>) -> (result: Result<
    &'a TapeDrive,
    String,
>)
    ensures
        match (
            result,
            selected_position(
                drives@,
                match selector {
                    Some(s) => Some(s@),
                    None => None,
                },
            ),
        ) {
            (Ok(drive), Ok(k)) => 0 <= k < drives@.len() && *drive == drives@[k],
            (Err(message), Err(expected)) => message@ == expected,
            _ => false,
        },
{
    match selector {
        None => {
            if drives.len() == 1 {
                Ok(&drives[0])
            } else if drives.len() == 0 {
                Err("系统上未发现磁带机。".to_owned())
            } else {
                Err("系统上有多台磁带机，请用 `tapecpy info <选择器>` 指定一台。".to_owned())
            }
        },
        Some(text) => {
            match parse_unsigned(text, usize::MAX as u64) {
                Some(n) => {
                    if n >= 1 && n <= drives.len() as u64 {
                        Ok(&drives[(n - 1) as usize])
                    } else {
                        Err(
                            cat5(
                                "序号 ",
                                decimal(n).as_str(),
                                " 超出范围（共 ",
                                decimal(drives.len() as u64).as_str(),
                                " 台）。",
                            ),
                        )
                    }
                },
                None => {
                    let mut i: usize = 0;
                    assert(drives@.subrange(0, drives@.len() as int) =~= drives@);
                    while i < drives.len()
                        invariant
                            i <= drives@.len(),
                            selector == Some(text),
                            parse_unsigned_spec(text@, usize::MAX as nat) is None,
                            path_position(drives@, text@) == i + path_position(
                                drives@.subrange(i as int, drives@.len() as int),
                                text@,
                            ),
                        decreases drives@.len() - i,
                    {
                        let ghost rest = drives@.subrange(i as int, drives@.len() as int);
                        assert(rest[0] == drives@[i as int]);
                        assert(rest.drop_first() =~= drives@.subrange(
                            i + 1,
                            drives@.len() as int,
                        ));
                        let drive = &drives[i];
                        if same_path(text, drive.nst_path.as_str()) || same_path(
                            text,
                            drive.st_path.as_str(),
                        ) || same_path(text, drive.sg_path.as_str()) {
                            return Ok(&drives[i]);
                        }
                        i = i + 1;
                    }
                    Err(cat3("找不到设备 `", text, "`。"))
                },
            }
        },
    }
}

// ---------------------------------------------------------------------------
// Health
// ---------------------------------------------------------------------------

/// The health of a drive and its medium, read without moving the tape.
#[derive(Debug, PartialEq, Eq)]
pub struct DriveHealth {
    pub write_errors: Option<ErrorCounters>,
    pub read_errors: Option<ErrorCounters>,
    pub tape_alerts: Vec<u16>,
    pub write_channels: Option<Vec<ChannelCounters>>,
    pub read_channels: Option<Vec<ChannelCounters>>,
    pub warnings: Vec<String>,
}

/// The model of a health report.
#[verifier::ext_equal]
pub struct HealthModel {
    pub write_errors: Option<ErrorCounters>,
    pub read_errors: Option<ErrorCounters>,
    pub tape_alerts: Seq<u16>,
    pub write_channels: Option<Seq<ChannelCounters>>,
    pub read_channels: Option<Seq<ChannelCounters>>,
    pub warnings: Seq<Seq<char>>,
}

pub open spec fn opt_seq<T>(list: Option<Vec<T>>) -> Option<Seq<T>> {
    match list {
        Some(v) => Some(v@),
        None => None,
    }
}

impl View for DriveHealth {
    type V = HealthModel;

    open spec fn view(&self) -> HealthModel {
        HealthModel {
            write_errors: self.write_errors,
            read_errors: self.read_errors,
            tape_alerts: self.tape_alerts@,
            write_channels: opt_seq(self.write_channels),
            read_channels: opt_seq(self.read_channels),
            warnings: views(self.warnings@),
        }
    }
}

impl Default for DriveHealth {
    fn default() -> (health: DriveHealth)
        ensures
            health@ == no_health(),
    {
        let health = DriveHealth {
            write_errors: None,
            read_errors: None,
            tape_alerts: Vec::new(),
            write_channels: None,
            read_channels: None,
            warnings: Vec::new(),
        };
        assert(health@ =~= no_health());
        health
    }
}

pub open spec fn no_health() -> HealthModel {
    HealthModel {
        write_errors: None,
        read_errors: None,
        tape_alerts: Seq::empty(),
        write_channels: None,
        read_channels: None,
        warnings: Seq::empty(),
    }
}

/// What is wrong with a log page, in words.
pub open spec fn parse_error_text(e: ParseError) -> Seq<char> {
    match e {
        ParseError::TruncatedHeader => "TruncatedHeader"@,
        ParseError::WrongPage { expected, actual } => "WrongPage { expected: "@ + decimal_spec(
            expected as nat,
        ) + ", actual: "@ + decimal_spec(actual as nat) + " }"@,
        ParseError::TruncatedPage { declared, actual } => "TruncatedPage { declared: "@
            + decimal_spec(declared as nat) + ", actual: "@ + decimal_spec(actual as nat) + " }"@,
        ParseError::TruncatedParameter { code } => "TruncatedParameter { code: "@ + decimal_spec(
            code as nat,
        ) + " }"@,
    }
}

fn error_text(e: &ParseError) -> (text: String)
    ensures
        text@ == parse_error_text(*e),
{
    match e {
        ParseError::TruncatedHeader => "TruncatedHeader".to_owned(),
        ParseError::WrongPage { expected, actual } => cat5(
            "WrongPage { expected: ",
            decimal(*expected as u64).as_str(),
            ", actual: ",
            decimal(*actual as u64).as_str(),
            " }",
        ),
        ParseError::TruncatedPage { declared, actual } => cat5(
            "TruncatedPage { declared: ",
            decimal(*declared as u64).as_str(),
            ", actual: ",
            decimal(*actual as u64).as_str(),
            " }",
        ),
        ParseError::TruncatedParameter { code } => cat3(
            "TruncatedParameter { code: ",
            decimal(*code as u64).as_str(),
            " }",
        ),
    }
}

/// A page as it was read, or why it could not be.
pub type PageReply = Result<Vec<u8>, String>;

pub open spec fn reply_view(reply: PageReply) -> Result<Seq<u8>, Seq<char>> {
    match reply {
        Ok(bytes) => Ok(bytes@),
        Err(message) => Err(message@),
    }
}

/// The counters of an error page, with the warning where there are none.
pub open spec fn counters_reply(
    reply: Result<Seq<u8>, Seq<char>>,
    page: u8,
    kind: Seq<char>,
) -> Result<ErrorCounters, Seq<char>> {
    match reply {
        Ok(raw) => match page_spec(raw, page) {
            Ok(parameters) => Ok(counters_spec(parameters)),
            Err(e) => Err("解析 "@ + kind + " LOG SENSE page 失败: "@ + parse_error_text(e)),
        },
        Err(message) => Err("读取 "@ + kind + " LOG SENSE page 失败: "@ + message),
    }
}

/// The flags of a TapeAlert page, with the warning where there are none.
pub open spec fn alerts_reply(reply: Result<Seq<u8>, Seq<char>>) -> Result<Seq<u16>, Seq<char>> {
    match reply {
        Ok(raw) => match page_spec(raw, 0x2e) {
            Ok(parameters) => Ok(active_codes(parameters)),
            Err(e) => Err("解析 TapeAlert LOG SENSE page 失败: "@ + parse_error_text(e)),
        },
        Err(message) => Err("读取 TapeAlert LOG SENSE page 失败: "@ + message),
    }
}

/// The channels of a diagnostic page, with the warning where there are none.
pub open spec fn channels_reply(reply: Result<Seq<u8>, Seq<char>>, kind: PageKind) -> Result<
    Seq<ChannelCounters>,
    Seq<char>,
> {
    match reply {
        Ok(raw) => channel_page(raw, kind),
        Err(message) => Err(
            "读取 channel diagnostic page 0x"@ + hex_spec(page_code_spec(kind) as nat, 2)
                + " 失败: "@ + message,
        ),
    }
}

pub open spec fn with_warning<T>(warnings: Seq<Seq<char>>, part: Result<T, Seq<char>>) -> Seq<
    Seq<char>,
> {
    match part {
        Ok(_) => warnings,
        Err(message) => warnings.push(message),
    }
}

pub open spec fn part_of<T>(part: Result<T, Seq<char>>) -> Option<T> {
    match part {
        Ok(value) => Some(value),
        Err(_) => None,
    }
}

/// The health report that five pages stand for. A page that cannot be read or understood
/// leaves a warning, in the order of the pages, and its part of the report empty.
pub open spec fn health_spec(
    write_log: Result<Seq<u8>, Seq<char>>,
    read_log: Result<Seq<u8>, Seq<char>>,
    alert_log: Result<Seq<u8>, Seq<char>>,
    write_diagnostic: Result<Seq<u8>, Seq<char>>,
    read_diagnostic: Result<Seq<u8>, Seq<char>>,
) -> HealthModel {
    let write = counters_reply(write_log, 0x02, "write error"@);
    let read = counters_reply(read_log, 0x03, "read error"@);
    let alerts = alerts_reply(alert_log);
    let write_channels = channels_reply(write_diagnostic, PageKind::Write);
    let read_channels = channels_reply(read_diagnostic, PageKind::Read);
    HealthModel {
        write_errors: part_of(write),
        read_errors: part_of(read),
        tape_alerts: match alerts {
            Ok(codes) => codes,
            Err(_) => Seq::empty(),
        },
        write_channels: part_of(write_channels),
        read_channels: part_of(read_channels),
        warnings: with_warning(
            with_warning(
                with_warning(with_warning(with_warning(Seq::empty(), write), read), alerts),
                write_channels,
            ),
            read_channels,
        ),
    }
}

fn read_counters(reply: PageReply, page: u8, kind: &str) -> (result: Result<ErrorCounters, String>)
    ensures
        match result {
            Ok(c) => counters_reply(reply_view(reply), page, kind@) == Ok::<
                ErrorCounters,
                Seq<char>,
            >(c),
            Err(message) => counters_reply(reply_view(reply), page, kind@) == Err::<
                ErrorCounters,
                Seq<char>,
            >(message@),
        },
{
    match reply {
        Ok(raw) => match parse_page(raw.as_slice(), page) {
            Ok(parameters) => Ok(error_counters(parameters.as_slice())),
            Err(e) => Err(
                cat4("解析 ", kind, " LOG SENSE page 失败: ", error_text(&e).as_str()),
            ),
        },
        Err(message) => Err(cat4("读取 ", kind, " LOG SENSE page 失败: ", message.as_str())),
    }
}

fn read_alerts(reply: PageReply) -> (result: Result<Vec<u16>, String>)
    ensures
        match result {
            Ok(codes) => alerts_reply(reply_view(reply)) == Ok::<Seq<u16>, Seq<char>>(codes@),
            Err(message) => alerts_reply(reply_view(reply)) == Err::<Seq<u16>, Seq<char>>(message@),
        },
{
    match reply {
        Ok(raw) => match parse_page(raw.as_slice(), 0x2e) {
            Ok(parameters) => Ok(active_tape_alerts(parameters.as_slice())),
            Err(e) => Err(
                cat2("解析 TapeAlert LOG SENSE page 失败: ", error_text(&e).as_str()),
            ),
        },
        Err(message) => Err(cat2("读取 TapeAlert LOG SENSE page 失败: ", message.as_str())),
    }
}

fn read_channels(reply: PageReply, kind: PageKind) -> (result: Result<Vec<ChannelCounters>, String>)
    ensures
        channel_error::channels_outcome(result) == channels_reply(reply_view(reply), kind),
{
    match reply {
        Ok(raw) => channel_error::parse_page(raw.as_slice(), kind),
        Err(message) => Err(
            cat4(
                "读取 channel diagnostic page 0x",
                hex_padded(kind.page_code() as u64, 2).as_str(),
                " 失败: ",
                message.as_str(),
            ),
        ),
    }
}

fn push_warning(warnings: &mut Vec<String>, message: String)
    ensures
        views(final(warnings)@) == views(old(warnings)@).push(message@),
{
    let ghost before = warnings@;
    warnings.push(message);
    assert(views(warnings@) =~= views(before).push(message@));
}

/// The health of a drive, from its error counter pages (02h and 03h), its TapeAlert page
/// (2Eh) and its channel error pages (88h and 87h).
pub fn read_drive_health(
    write_log: PageReply,
    read_log: PageReply,
    alert_log: PageReply,
    write_diagnostic: PageReply,
    read_diagnostic: PageReply,
) -> (health: DriveHealth)
    ensures
        health@ == health_spec(
            reply_view(write_log),
            reply_view(read_log),
            reply_view(alert_log),
            reply_view(write_diagnostic),
            reply_view(read_diagnostic),
        ),
{
    let mut health = DriveHealth::default();
    match read_counters(write_log, 0x02, "write error") {
        Ok(counters) => {
            health.write_errors = Some(counters);
        },
        Err(message) => {
            push_warning(&mut health.warnings, message);
        },
    }
    match read_counters(read_log, 0x03, "read error") {
        Ok(counters) => {
            health.read_errors = Some(counters);
        },
        Err(message) => {
            push_warning(&mut health.warnings, message);
        },
    }
    match read_alerts(alert_log) {
        Ok(codes) => {
            health.tape_alerts = codes;
        },
        Err(message) => {
            push_warning(&mut health.warnings, message);
        },
    }
    match read_channels(write_diagnostic, PageKind::Write) {
        Ok(channels) => {
            health.write_channels = Some(channels);
        },
        Err(message) => {
            push_warning(&mut health.warnings, message);
        },
    }
    match read_channels(read_diagnostic, PageKind::Read) {
        Ok(channels) => {
            health.read_channels = Some(channels);
        },
        Err(message) => {
            push_warning(&mut health.warnings, message);
        },
    }
    health
}

/// What changed between two health reports; rates by their ordering keys.
#[derive(Debug, PartialEq, Eq)]
pub struct DriveHealthDelta {
    pub corrected_write_errors: Option<u64>,
    pub hard_write_errors: Option<u64>,
    pub corrected_read_errors: Option<u64>,
    pub hard_read_errors: Option<u64>,
    pub active_tape_alerts: Vec<u16>,
    pub write_channel_rates: Vec<ChannelRate>,
    pub worst_write_channel_rate: Option<i64>,
}

/// By how much a counter grew; `None` where it is unknown or went backwards.
pub open spec fn counter_delta_spec(before: Option<u64>, after: Option<u64>) -> Option<u64> {
    match (before, after) {
        (Some(b), Some(a)) => if a >= b {
            Some((a - b) as u64)
        } else {
            None
        },
        _ => None,
    }
}

pub fn counter_delta(before: Option<u64>, after: Option<u64>) -> (delta: Option<u64>)
    ensures
        delta == counter_delta_spec(before, after),
{
    match (before, after) {
        (Some(b), Some(a)) => if a >= b { Some(a - b) } else { None },
        _ => None,
    }
}

pub open spec fn corrected(counters: Option<ErrorCounters>) -> Option<u64> {
    match counters {
        Some(c) => c.total_corrected,
        None => None,
    }
}

pub open spec fn uncorrected(counters: Option<ErrorCounters>) -> Option<u64> {
    match counters {
        Some(c) => c.uncorrected,
        None => None,
    }
}

fn corrected_count(counters: &Option<ErrorCounters>) -> (n: Option<u64>)
    ensures
        n == corrected(*counters),
{
    match counters {
        Some(c) => c.total_corrected,
        None => None,
    }
}

fn uncorrected_count(counters: &Option<ErrorCounters>) -> (n: Option<u64>)
    ensures
        n == uncorrected(*counters),
{
    match counters {
        Some(c) => c.uncorrected,
        None => None,
    }
}

fn copy_codes(codes: &Vec<u16>) -> (copy: Vec<u16>)
    ensures
        copy@ == codes@,
{
    let mut copy: Vec<u16> = Vec::new();
    let mut i: usize = 0;
    while i < codes.len()
        invariant
            i <= codes@.len(),
            copy@ == codes@.subrange(0, i as int),
        decreases codes@.len() - i,
    {
        copy.push(codes[i]);
        i = i + 1;
        assert(copy@ =~= codes@.subrange(0, i as int));
    }
    assert(copy@ =~= codes@);
    copy
}

impl DriveHealthDelta {
    /// What happened on the write channels between two reports.
    pub fn channel_deltas(before: &DriveHealth, after: &DriveHealth) -> (list: Vec<ChannelDelta>)
        ensures
            match (before.write_channels, after.write_channels) {
                (Some(b), Some(a)) => list@.len() == (if b@.len() < a@.len() {
                    b@.len()
                } else {
                    a@.len()
                }) && forall|i: int|
                    0 <= i < list@.len() ==> #[trigger] list@[i] == channel_error::delta_spec(
                        i as usize,
                        b@[i],
                        a@[i],
                    ),
                _ => list@.len() == 0,
            },
    {
        match (&before.write_channels, &after.write_channels) {
            (Some(b), Some(a)) => deltas(b, a),
            _ => Vec::new(),
        }
    }

    /// What changed between two reports, given the rates of the write channels.
    pub fn between(before: &DriveHealth, after: &DriveHealth, rates: Vec<ChannelRate>) -> (delta:
        DriveHealthDelta)
        ensures
            delta.corrected_write_errors == counter_delta_spec(
                corrected(before.write_errors),
                corrected(after.write_errors),
            ),
            delta.hard_write_errors == counter_delta_spec(
                uncorrected(before.write_errors),
                uncorrected(after.write_errors),
            ),
            delta.corrected_read_errors == counter_delta_spec(
                corrected(before.read_errors),
                corrected(after.read_errors),
            ),
            delta.hard_read_errors == counter_delta_spec(
                uncorrected(before.read_errors),
                uncorrected(after.read_errors),
            ),
            delta.active_tape_alerts@ == after.tape_alerts@,
            delta.write_channel_rates@ == rates@,
            delta.worst_write_channel_rate == worst_rate_spec(rates@),
    {
        let worst = worst_rate(rates.as_slice());
        DriveHealthDelta {
            corrected_write_errors: counter_delta(
                corrected_count(&before.write_errors),
                corrected_count(&after.write_errors),
            ),
            hard_write_errors: counter_delta(
                uncorrected_count(&before.write_errors),
                uncorrected_count(&after.write_errors),
            ),
            corrected_read_errors: counter_delta(
                corrected_count(&before.read_errors),
                corrected_count(&after.read_errors),
            ),
            hard_read_errors: counter_delta(
                uncorrected_count(&before.read_errors),
                uncorrected_count(&after.read_errors),
            ),
            active_tape_alerts: copy_codes(&after.tape_alerts),
            write_channel_rates: rates,
            worst_write_channel_rate: worst,
        }
    }
}

} // verus!
