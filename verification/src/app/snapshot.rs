//! What is known of a drive and its cartridge at one moment.
use vstd::prelude::*;
use vstd::string::*;

use super::drives::{DriveHealth, DriveHealthDelta};
use super::telemetry::{ChannelTelemetryState, SessionWorstChannelRate};
use super::volume::{VolumeDiagnosis, VolumeInfo};
use super::write::WriteSummary;
use super::write_state::{ChannelTelemetrySample, WriteVerification};
use super::append::FileHash;
use crate::device::{MediaInfo, MediaPresence, TapeDrive};
use crate::text::{cat2, views};

verus! {

/// Where a cartridge is.
#[derive(Debug, Clone, Copy, PartialEq, Eq, Structural)]
pub enum MediaLifecycle {
    NoMediaDetected,
    /// In the drive, but not threaded.
    PresentUnthreaded,
    LoadedThreaded,
    Transitioning,
    Unknown,
}

/// Where a cartridge is: one whose memory can be read though nothing is loaded is in the
/// drive, but not threaded.
pub open spec fn lifecycle_spec(media: Option<&MediaInfo>) -> MediaLifecycle {
    match media {
        Some(m) => match m.presence {
            MediaPresence::Loaded => MediaLifecycle::LoadedThreaded,
            MediaPresence::NotLoaded => if m.mam is Some {
                MediaLifecycle::PresentUnthreaded
            } else {
                MediaLifecycle::NoMediaDetected
            },
            MediaPresence::NotReady => MediaLifecycle::Transitioning,
            MediaPresence::Unknown => MediaLifecycle::Unknown,
        },
        None => MediaLifecycle::Unknown,
    }
}

/// Where a cartridge is.
pub fn media_lifecycle(media: Option<&MediaInfo>) -> (lifecycle: MediaLifecycle)
    ensures
        lifecycle == lifecycle_spec(media),
{
    match media {
        Some(m) => match m.presence {
            MediaPresence::Loaded => MediaLifecycle::LoadedThreaded,
            MediaPresence::NotLoaded => if m.mam.is_some() {
                MediaLifecycle::PresentUnthreaded
            } else {
                MediaLifecycle::NoMediaDetected
            },
            MediaPresence::NotReady => MediaLifecycle::Transitioning,
            MediaPresence::Unknown => MediaLifecycle::Unknown,
        },
        None => MediaLifecycle::Unknown,
    }
}

/// What is known of a drive and its cartridge at one moment.
#[derive(Debug, PartialEq, Eq)]
pub struct DeviceSnapshot {
    pub drive: TapeDrive,
    pub lifecycle: MediaLifecycle,
    pub media: Option<MediaInfo>,
    pub volume: Option<VolumeInfo>,
    pub diagnosis: Option<VolumeDiagnosis>,
    pub health: Option<DriveHealth>,
    pub refreshed_at: String,
    pub warnings: Vec<String>,
}

/// A snapshot before anything has been asked.
pub fn pending_device_snapshot(drive: TapeDrive, now: String) -> (snapshot: DeviceSnapshot)
    ensures
        snapshot.drive == drive,
        snapshot.lifecycle == MediaLifecycle::Unknown,
        snapshot.media is None,
        snapshot.volume is None,
        snapshot.diagnosis is None,
        snapshot.health is None,
        snapshot.refreshed_at == now,
        snapshot.warnings@.len() == 0,
{
    DeviceSnapshot {
        drive,
        lifecycle: MediaLifecycle::Unknown,
        media: None,
        volume: None,
        diagnosis: None,
        health: None,
        refreshed_at: now,
        warnings: Vec::new(),
    }
}

/// What is warned of where something could not be asked.
pub open spec fn query_warning<T>(what: Seq<char>, reply: Result<T, String>) -> Seq<Seq<char>> {
    match reply {
        Ok(_) => Seq::empty(),
        Err(message) => seq![what + message@],
    }
}

pub open spec fn ok_of<T>(reply: Result<T, String>) -> Option<T> {
    match reply {
        Ok(value) => Some(value),
        Err(_) => None,
    }
}

fn push_text(list: &mut Vec<String>, text: String)
    ensures
        views(final(list)@) == views(old(list)@).push(text@),
{
    let ghost before = list@;
    list.push(text);
    assert(views(list@) =~= views(before).push(text@));
}

/// A snapshot that does not move the tape.
pub fn inspect_device_snapshot_basic(
    drive: TapeDrive,
    media: Result<MediaInfo, String>,
    health: Result<DriveHealth, String>,
    now: String,
) -> (snapshot: DeviceSnapshot)
    ensures
        snapshot.drive == drive,
        snapshot.media == ok_of(media),
        snapshot.lifecycle == (match media {
            Ok(m) => lifecycle_spec(Some(&m)),
            Err(_) => MediaLifecycle::Unknown,
        }),
        snapshot.volume is None,
        snapshot.diagnosis is None,
        snapshot.health == ok_of(health),
        snapshot.refreshed_at == now,
        views(snapshot.warnings@) == query_warning("介质状态查询失败: "@, media) + query_warning(
            "健康状态查询失败: "@,
            health,
        ),
{
    let mut warnings: Vec<String> = Vec::new();
    let ghost wanted = query_warning("介质状态查询失败: "@, media) + query_warning(
        "健康状态查询失败: "@,
        health,
    );
    let media = match media {
        Ok(m) => Some(m),
        Err(message) => {
            push_text(&mut warnings, cat2("介质状态查询失败: ", message.as_str()));
            None
        },
    };
    let lifecycle = match &media {
        Some(m) => media_lifecycle(Some(m)),
        None => media_lifecycle(None),
    };
    let health = match health {
        Ok(h) => Some(h),
        Err(message) => {
            push_text(&mut warnings, cat2("健康状态查询失败: ", message.as_str()));
            None
        },
    };
    assert(views(warnings@) =~= wanted);
    DeviceSnapshot {
        drive,
        lifecycle,
        media,
        volume: None,
        diagnosis: None,
        health,
        refreshed_at: now,
        warnings,
    }
}

fn push_all(list: &mut Vec<String>, more: &Vec<String>)
    ensures
        views(final(list)@) == views(old(list)@) + views(more@),
{
    let ghost before = views(list@);
    let mut i: usize = 0;
    assert(before + views(more@).subrange(0, 0) =~= before);
    while i < more.len()
        invariant
            i <= more@.len(),
            views(list@) == before + views(more@).subrange(0, i as int),
        decreases more@.len() - i,
    {
        push_text(list, more[i].clone());
        i = i + 1;
        assert(views(list@) =~= before + views(more@).subrange(0, i as int));
    }
    assert(views(more@).subrange(0, i as int) =~= views(more@));
}

/// A snapshot asks for the volume only where a cartridge is threaded.
pub fn wants_volume(snapshot: &DeviceSnapshot) -> (yes: bool)
    ensures
        yes == (snapshot.lifecycle is LoadedThreaded),
{
    snapshot.lifecycle == MediaLifecycle::LoadedThreaded
}

/// A snapshot with what came of inspecting the volume. A diagnosis is wanted where the
/// volume was recognized.
pub fn with_volume(snapshot: DeviceSnapshot, reply: Result<VolumeInfo, String>) -> (result: (
    DeviceSnapshot,
    bool,
))
    ensures
        result.0 == (DeviceSnapshot {
            volume: match reply {
                Ok(v) => Some(v),
                Err(_) => snapshot.volume,
            },
            warnings: result.0.warnings,
            ..snapshot
        }),
        views(result.0.warnings@) == views(snapshot.warnings@) + (match reply {
            Ok(v) => views(v.warnings@),
            Err(message) => seq!["LTFS 查询失败: "@ + message@],
        }),
        result.1 == (result.0.volume is Some && result.0.volume->0.recognized),
{
    let mut snapshot = snapshot;
    let ghost before = views(snapshot.warnings@);
    match reply {
        Ok(volume) => {
            push_all(&mut snapshot.warnings, &volume.warnings);
            snapshot.volume = Some(volume);
        },
        Err(message) => {
            push_text(&mut snapshot.warnings, cat2("LTFS 查询失败: ", message.as_str()));
            assert(views(snapshot.warnings@) =~= before + seq!["LTFS 查询失败: "@ + message@]);
        },
    }
    let recognized = match &snapshot.volume {
        Some(v) => v.recognized,
        None => false,
    };
    (snapshot, recognized)
}

/// A snapshot with what came of the diagnosis.
pub fn with_diagnosis(snapshot: DeviceSnapshot, reply: Result<VolumeDiagnosis, String>) -> (after:
    DeviceSnapshot)
    ensures
        after == (DeviceSnapshot {
            diagnosis: match reply {
                Ok(d) => Some(d),
                Err(_) => snapshot.diagnosis,
            },
            warnings: after.warnings,
            ..snapshot
        }),
        views(after.warnings@) == views(snapshot.warnings@) + (match reply {
            Ok(d) => views(d.partition_errors@),
            Err(message) => seq!["一致性诊断失败: "@ + message@],
        }),
{
    let mut snapshot = snapshot;
    let ghost before = views(snapshot.warnings@);
    match reply {
        Ok(diagnosis) => {
            push_all(&mut snapshot.warnings, &diagnosis.partition_errors);
            snapshot.diagnosis = Some(diagnosis);
        },
        Err(message) => {
            push_text(&mut snapshot.warnings, cat2("一致性诊断失败: ", message.as_str()));
            assert(views(snapshot.warnings@) =~= before + seq!["一致性诊断失败: "@ + message@]);
        },
    }
    snapshot
}

// ---------------------------------------------------------------------------
// The result of a write
// ---------------------------------------------------------------------------

/// What a write has done, and what it did to the drive.
#[derive(Debug, PartialEq, Eq)]
pub struct WriteResult {
    pub bytes: u64,
    pub files: usize,
    pub directories: usize,
    pub file_uid: u64,
    pub generation: u64,
    pub data_start_block: u64,
    pub hashes: Vec<FileHash>,
    pub verification: WriteVerification,
    pub health_before: DriveHealth,
    pub health_after: DriveHealth,
    pub health_delta: DriveHealthDelta,
    pub telemetry_history: Vec<ChannelTelemetrySample>,
    pub session_worst_channel_rate: Option<SessionWorstChannelRate>,
    pub telemetry_warnings: Vec<String>,
}

/// The result of a write from what the parts of it know.
pub fn write_result(
    summary: WriteSummary,
    health_before: DriveHealth,
    health_after: DriveHealth,
    health_delta: DriveHealthDelta,
    telemetry: ChannelTelemetryState,
) -> (result: WriteResult)
    ensures
        result.bytes == summary.bytes,
        result.files == summary.files,
        result.directories == summary.directories,
        result.file_uid == summary.file_uid,
        result.generation == summary.generation,
        result.data_start_block == summary.data_start_block,
        result.hashes == summary.hashes,
        result.verification == summary.verification,
        result.health_before == health_before,
        result.health_after == health_after,
        result.health_delta == health_delta,
        super::telemetry::sample_models(result.telemetry_history@) == telemetry.history_spec(),
        super::telemetry::opt_worst(result.session_worst_channel_rate) == telemetry.worst_spec(),
        views(result.telemetry_warnings@) == telemetry.warnings_spec(),
{
    let (history, worst, warnings) = telemetry.finish();
    WriteResult {
        bytes: summary.bytes,
        files: summary.files,
        directories: summary.directories,
        file_uid: summary.file_uid,
        generation: summary.generation,
        data_start_block: summary.data_start_block,
        hashes: summary.hashes,
        verification: summary.verification,
        health_before,
        health_after,
        health_delta,
        telemetry_history: history,
        session_worst_channel_rate: worst,
        telemetry_warnings: warnings,
    }
}

// ---------------------------------------------------------------------------
// Time
// ---------------------------------------------------------------------------

/// A moment in UTC, in the parts of a calendar.
#[derive(Debug, Clone, Copy, PartialEq, Eq, Structural)]
pub struct CalendarTime {
    pub year: u32,
    pub month: u32,
    pub day: u32,
    pub hour: u32,
    pub minute: u32,
    pub second: u32,
    pub nanosecond: u32,
}

/// A number in decimal, with zeros in front up to a width.
pub open spec fn zero_padded(n: nat, width: nat) -> Seq<char> {
    let digits = crate::text::decimal_spec(n);
    if digits.len() >= width {
        digits
    } else {
        Seq::new((width - digits.len()) as nat, |i: int| '0') + digits
    }
}

fn padded(n: u32, width: usize) -> (text: String)
    ensures
        text@ == zero_padded(n as nat, width as nat),
{
    let digits = crate::text::decimal(n as u64);
    let len: usize = digits.as_str().unicode_len();
    if len >= width {
        return digits;
    }
    let mut text = String::new();
    let missing: usize = width - len;
    let mut i: usize = 0;
    while i < missing
        invariant
            i <= missing,
            text@ == Seq::new(i as nat, |i: int| '0'),
        decreases missing - i,
    {
        text.push('0');
        i = i + 1;
        assert(text@ =~= Seq::new(i as nat, |i: int| '0'));
    }
    text.append(digits.as_str());
    text
}

/// A moment as LTFS writes it.
pub open spec fn ltfs_time_text(t: CalendarTime) -> Seq<char> {
    zero_padded(t.year as nat, 4) + "-"@ + zero_padded(t.month as nat, 2) + "-"@ + zero_padded(
        t.day as nat,
        2,
    ) + "T"@ + zero_padded(t.hour as nat, 2) + ":"@ + zero_padded(t.minute as nat, 2) + ":"@
        + zero_padded(t.second as nat, 2) + "."@ + zero_padded(t.nanosecond as nat, 9) + "Z"@
}

/// A moment as LTFS writes it: `YYYY-MM-DDTHH:MM:SS.nnnnnnnnnZ`.
pub fn ltfs_time(t: CalendarTime) -> (text: String)
    ensures
        text@ == ltfs_time_text(t),
{
    let mut text = padded(t.year, 4);
    text.append("-");
    text.append(padded(t.month, 2).as_str());
    text.append("-");
    text.append(padded(t.day, 2).as_str());
    text.append("T");
    text.append(padded(t.hour, 2).as_str());
    text.append(":");
    text.append(padded(t.minute, 2).as_str());
    text.append(":");
    text.append(padded(t.second, 2).as_str());
    text.append(".");
    text.append(padded(t.nanosecond, 9).as_str());
    text.append("Z");
    text
}

} // verus!
