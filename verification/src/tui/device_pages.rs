//! The pages of a drive, its cartridge and its volume.
use vstd::prelude::*;
use vstd::string::*;

use super::browse::{index_shown, shown_index};
use super::erase_keys::{is_protected, protected};
use super::pages::{density_else, density_or, partition_of_tape, tape_partition};
use super::start::{cartridge_label, label_of_cartridge};
use super::state::{
    device_claimed, lifecycle_label, lifecycle_text, selected_device_claimed, RawMamStatus,
    SequentialMode, UiState,
};
use super::view::{
    alerts_of, alerts_text, cartridge_line, cartridge_operation_line, counter, fact_line,
    hint_line, ltfs_line, ltfs_operation_line, number_or, text_else, text_line, text_or, yes_no,
    yes_no_text, LineModel, Lines, Tone,
};
use crate::app::drives::DriveHealth;
use crate::app::mounts::{BrowserEntry, BrowserEntryKind, MountedFilesystem};
use crate::app::snapshot::{DeviceSnapshot, MediaLifecycle};
use crate::app::volume::VolumeConsistency;
use crate::device::mtio::write_protected;
use crate::device::{MamInfo, MediaInfo};
use crate::ltfs::index::Index;
use crate::ltfs::label::Label;
use crate::text::{cat2, cat3, cat4, cat5, cat7, decimal, decimal_spec, join, joined, pad_right, right_padded, views};

verus! {

// ---------------------------------------------------------------------------
// The header
// ---------------------------------------------------------------------------

/// The drive in one line.
pub open spec fn drive_title(s: UiState) -> Seq<char> {
    match s.device.snapshot {
        Some(snapshot) => {
            let d = snapshot.drive;
            d.vendor@ + " "@ + d.model@ + "  ·  "@ + d.serial@ + "  ·  "@ + d.nst_path@
        },
        None => "— —  ·  —  ·  —"@,
    }
}

/// The cartridge and the volume in one line.
pub open spec fn media_title(s: UiState) -> Seq<char> {
    let media = match s.device.snapshot {
        Some(snapshot) => snapshot.media,
        None => None,
    };
    lifecycle_text(
        match s.device.snapshot {
            Some(snapshot) => snapshot.lifecycle,
            None => MediaLifecycle::Unknown,
        },
    ) + "  ·  "@ + (match cartridge_label(media) {
        Some(label) => label,
        None => "—"@,
    }) + "  ·  "@ + (match shown_index(s) {
        Some(index) => text_or(index.volume_name, "—"@),
        None => "—"@,
    }) + "  ·  "@ + (match media {
        Some(m) => match m.mam {
            Some(mam) => text_or(mam.medium_serial, "—"@),
            None => "—"@,
        },
        None => "—"@,
    })
}

/// The drive, and the cartridge with its volume, in one line each.
pub fn header_lines(s: &UiState) -> (lines: (String, String))
    ensures
        lines.0@ == drive_title(*s),
        lines.1@ == media_title(*s),
{
    let name = match index_shown(s) {
        Some(index) => text_else(&index.volume_name, "—"),
        None => "—".to_owned(),
    };
    match &s.device.snapshot {
        Some(snapshot) => {
            let d = &snapshot.drive;
            let title = cat7(
                d.vendor.as_str(),
                " ",
                d.model.as_str(),
                "  ·  ",
                d.serial.as_str(),
                "  ·  ",
                d.nst_path.as_str(),
            );
            let label = match label_of_cartridge(&snapshot.media) {
                Some(label) => label,
                None => "—".to_owned(),
            };
            let serial = match &snapshot.media {
                Some(m) => match &m.mam {
                    Some(mam) => text_else(&mam.medium_serial, "—"),
                    None => "—".to_owned(),
                },
                None => "—".to_owned(),
            };
            let media = cat7(
                lifecycle_label(snapshot.lifecycle),
                "  ·  ",
                label.as_str(),
                "  ·  ",
                name.as_str(),
                "  ·  ",
                serial.as_str(),
            );
            (title, media)
        },
        None => {
            let media = cat7(
                lifecycle_label(MediaLifecycle::Unknown),
                "  ·  ",
                "—",
                "  ·  ",
                name.as_str(),
                "  ·  ",
                "—",
            );
            ("— —  ·  —  ·  —".to_owned(), media)
        },
    }
}

/// How warm the drive is, in words; `celsius` is what it has told.
pub open spec fn temperature_words(s: UiState, celsius: Option<u8>) -> Seq<char> {
    match s.device.snapshot {
        None => "TEMP —"@,
        Some(snapshot) => match (snapshot.health, celsius) {
            (None, _) => "TEMP ?"@,
            (Some(_), Some(n)) => decimal_spec(n as nat) + "°C"@,
            (Some(_), None) => "TEMP N/A"@,
        },
    }
}

/// How the temperature is meant.
pub open spec fn temperature_tone(s: UiState, celsius: Option<u8>) -> Tone {
    match s.device.snapshot {
        None => Tone::Dim,
        Some(snapshot) => match (snapshot.health, celsius) {
            (None, _) => Tone::Dim,
            (Some(_), Some(_)) => Tone::Good,
            (Some(_), None) => Tone::Busy,
        },
    }
}

/// How warm the drive is, in words, and how that is meant; `celsius` is what it has told.
pub fn header_temperature(s: &UiState, celsius: Option<u8>) -> (shown: (String, Tone))
    ensures
        shown.0@ == temperature_words(*s, celsius),
        shown.1 == temperature_tone(*s, celsius),
{
    match &s.device.snapshot {
        None => ("TEMP —".to_owned(), Tone::Dim),
        Some(snapshot) => match (&snapshot.health, celsius) {
            (None, _) => ("TEMP ?".to_owned(), Tone::Dim),
            (Some(_), Some(n)) => (cat2(decimal(n as u64).as_str(), "°C"), Tone::Good),
            (Some(_), None) => ("TEMP N/A".to_owned(), Tone::Busy),
        },
    }
}

// ---------------------------------------------------------------------------
// The overview
// ---------------------------------------------------------------------------

/// The drive.
pub open spec fn drive_page(snapshot: DeviceSnapshot) -> Seq<LineModel> {
    seq![
        fact_line("Model"@, snapshot.drive.vendor@ + " "@ + snapshot.drive.model@),
        fact_line("Serial"@, snapshot.drive.serial@),
        fact_line("Tape device"@, snapshot.drive.nst_path@),
        fact_line("SCSI device"@, snapshot.drive.sg_path@),
    ]
}

/// The cartridge.
pub open spec fn cartridge_page(snapshot: DeviceSnapshot) -> Seq<LineModel> {
    seq![
        fact_line("State"@, lifecycle_text(snapshot.lifecycle)),
        fact_line(
            "Barcode"@,
            match cartridge_label(snapshot.media) {
                Some(label) => label,
                None => "—"@,
            },
        ),
        fact_line("Media"@, density_or(snapshot.media, "—"@)),
        fact_line(
            "Write Protect"@,
            match snapshot.media {
                Some(m) => match m.tape_status {
                    Some(status) => yes_no_text(write_protected(status)),
                    None => "Unavailable"@,
                },
                None => "Unavailable"@,
            },
        ),
    ]
}

/// The drive.
pub fn drive_lines(snapshot: &DeviceSnapshot) -> (lines: Lines)
    ensures
        lines@ == drive_page(*snapshot),
{
    let mut lines = Lines::new();
    lines.fact(
        "Model",
        cat3(snapshot.drive.vendor.as_str(), " ", snapshot.drive.model.as_str()).as_str(),
    );
    lines.fact("Serial", snapshot.drive.serial.as_str());
    lines.fact("Tape device", snapshot.drive.nst_path.as_str());
    lines.fact("SCSI device", snapshot.drive.sg_path.as_str());
    assert(lines@ =~= drive_page(*snapshot));
    lines
}

/// The cartridge.
pub fn cartridge_lines(snapshot: &DeviceSnapshot) -> (lines: Lines)
    ensures
        lines@ == cartridge_page(*snapshot),
{
    let mut lines = Lines::new();
    lines.fact("State", lifecycle_label(snapshot.lifecycle));
    let label = match label_of_cartridge(&snapshot.media) {
        Some(label) => label,
        None => "—".to_owned(),
    };
    lines.fact("Barcode", label.as_str());
    lines.fact("Media", density_else(&snapshot.media, "—").as_str());
    let protection = match &snapshot.media {
        Some(m) => match &m.tape_status {
            Some(status) => yes_no(status.is_write_protected()),
            None => "Unavailable",
        },
        None => "Unavailable",
    };
    lines.fact("Write Protect", protection);
    assert(lines@ =~= cartridge_page(*snapshot));
    lines
}

/// A size that the cartridge remembers in MiB, in bytes, where it is in range.
pub fn mam_bytes(mib: Option<u64>) -> (bytes: Option<u64>)
    ensures
        bytes == (match mib {
            Some(n) => if n * 1048576 <= u64::MAX {
                Some((n * 1048576) as u64)
            } else {
                None
            },
            None => None,
        }),
{
    match mib {
        Some(n) => n.checked_mul(1048576),
        None => None,
    }
}

/// Sizes that the cartridge remembers, in words.
#[derive(Debug, PartialEq, Eq)]
pub struct MamFigures {
    pub remaining: String,
    pub maximum: String,
    pub written: String,
    pub read: String,
}

/// What the cartridge remembers.
pub open spec fn mam_page(mam: Option<MamInfo>, f: MamFigures) -> Seq<LineModel> {
    seq![
        fact_line(
            "MAM"@,
            if mam is Some {
                "Available"@
            } else {
                "Unavailable"@
            },
        ),
        fact_line(
            "Volume Identifier"@,
            match mam {
                Some(m) => text_or(m.volume_identifier, "—"@),
                None => "—"@,
            },
        ),
        fact_line(
            "Manufacturer"@,
            match mam {
                Some(m) => text_or(m.medium_manufacturer, "—"@),
                None => "—"@,
            },
        ),
        fact_line(
            "Medium Serial"@,
            match mam {
                Some(m) => text_or(m.medium_serial, "—"@),
                None => "—"@,
            },
        ),
        fact_line("Remaining"@, f.remaining@),
        fact_line("Maximum"@, f.maximum@),
        fact_line(
            "Load Count"@,
            match mam {
                Some(m) => number_or(m.load_count, "Unavailable"@),
                None => "Unavailable"@,
            },
        ),
        fact_line("Total Written"@, f.written@),
        fact_line("Total Read"@, f.read@),
    ]
}

/// What the cartridge remembers; sizes in words.
pub fn mam_lines(mam: &Option<MamInfo>, figures: &MamFigures) -> (lines: Lines)
    ensures
        lines@ == mam_page(*mam, *figures),
{
    let (id, maker, serial, loads) = match mam {
        Some(m) => (
            text_else(&m.volume_identifier, "—"),
            text_else(&m.medium_manufacturer, "—"),
            text_else(&m.medium_serial, "—"),
            counter(m.load_count),
        ),
        None => (
            "—".to_owned(),
            "—".to_owned(),
            "—".to_owned(),
            "Unavailable".to_owned(),
        ),
    };
    let mut lines = Lines::new();
    lines.fact(
        "MAM",
        if mam.is_some() {
            "Available"
        } else {
            "Unavailable"
        },
    );
    lines.fact("Volume Identifier", id.as_str());
    lines.fact("Manufacturer", maker.as_str());
    lines.fact("Medium Serial", serial.as_str());
    lines.fact("Remaining", figures.remaining.as_str());
    lines.fact("Maximum", figures.maximum.as_str());
    lines.fact("Load Count", loads.as_str());
    lines.fact("Total Written", figures.written.as_str());
    lines.fact("Total Read", figures.read.as_str());
    assert(lines@ =~= mam_page(*mam, *figures));
    lines
}

/// How many errors were corrected and how many were not: writing, then reading.
pub open spec fn health_counters(health: Option<DriveHealth>) -> Seq<Option<u64>> {
    let (cw, hw) = match health {
        Some(h) => match h.write_errors {
            Some(e) => (e.total_corrected, e.uncorrected),
            None => (None, None),
        },
        None => (None, None),
    };
    let (cr, hr) = match health {
        Some(h) => match h.read_errors {
            Some(e) => (e.total_corrected, e.uncorrected),
            None => (None, None),
        },
        None => (None, None),
    };
    seq![cw, hw, cr, hr]
}

/// The health of the drive, with the given names for the counters.
pub open spec fn health_page(
    health: Option<DriveHealth>,
    cw: Seq<char>,
    hw: Seq<char>,
    cr: Seq<char>,
    hr: Seq<char>,
) -> Seq<LineModel> {
    let counts = health_counters(health);
    seq![
        fact_line(
            "TapeAlert"@,
            match health {
                Some(h) => alerts_text(h.tape_alerts@),
                None => "Unavailable"@,
            },
        ),
        fact_line(cw, number_or(counts[0], "Unavailable"@)),
        fact_line(hw, number_or(counts[1], "Unavailable"@)),
        fact_line(cr, number_or(counts[2], "Unavailable"@)),
        fact_line(hr, number_or(counts[3], "Unavailable"@)),
    ]
}

fn add_health(
    health: &Option<DriveHealth>,
    cw: &'static str,
    hw: &'static str,
    cr: &'static str,
    hr: &'static str,
) -> (lines: Lines)
    ensures
        lines@ == health_page(*health, cw@, hw@, cr@, hr@),
{
    let alerts = match health {
        Some(h) => alerts_of(&h.tape_alerts),
        None => "Unavailable".to_owned(),
    };
    let (a, b): (Option<u64>, Option<u64>) = match health {
        Some(h) => match &h.write_errors {
            Some(e) => (e.total_corrected, e.uncorrected),
            None => (None, None),
        },
        None => (None, None),
    };
    let (c, d): (Option<u64>, Option<u64>) = match health {
        Some(h) => match &h.read_errors {
            Some(e) => (e.total_corrected, e.uncorrected),
            None => (None, None),
        },
        None => (None, None),
    };
    let mut lines = Lines::new();
    lines.fact("TapeAlert", alerts.as_str());
    lines.fact(cw, counter(a).as_str());
    lines.fact(hw, counter(b).as_str());
    lines.fact(cr, counter(c).as_str());
    lines.fact(hr, counter(d).as_str());
    assert(lines@ =~= health_page(*health, cw@, hw@, cr@, hr@));
    lines
}

/// The health of the drive on the overview.
pub fn overview_health_lines(health: &Option<DriveHealth>) -> (lines: Lines)
    ensures
        lines@ == health_page(*health, "Corrected W"@, "Hard W"@, "Corrected R"@, "Hard R"@),
{
    add_health(health, "Corrected W", "Hard W", "Corrected R", "Hard R")
}

/// The page of the health of the drive.
pub fn health_lines(snapshot: &DeviceSnapshot) -> (lines: Lines)
    ensures
        lines@ == health_page(
            snapshot.health,
            "Corrected write"@,
            "Hard write"@,
            "Corrected read"@,
            "Hard read"@,
        ).push(fact_line("Snapshot"@, snapshot.refreshed_at@)),
{
    let mut lines = add_health(
        &snapshot.health,
        "Corrected write",
        "Hard write",
        "Corrected read",
        "Hard read",
    );
    lines.fact("Snapshot", snapshot.refreshed_at.as_str());
    lines
}

/// What can be done with the cartridge.
pub open spec fn operations_page(s: UiState, snapshot: DeviceSnapshot) -> Seq<LineModel> {
    let locked = device_claimed(s);
    let empty = snapshot.lifecycle is NoMediaDetected;
    let inserted = snapshot.lifecycle is PresentUnthreaded;
    let threaded = snapshot.lifecycle is LoadedThreaded;
    let op = |key: Seq<char>, action: Seq<char>, what: Seq<char>, available: bool|
        cartridge_line(key, action, what, available && !locked, locked);
    seq![
        op("1"@, "Load Unthreaded"@, "Insert only"@, empty),
        op("2"@, "Load & Thread"@, "Insert & thread"@, empty || inserted),
        op("3"@, "Unthread"@, "Keep inserted"@, threaded),
        op("4"@, "Eject"@, "Eject directly"@, inserted || threaded),
        op("5"@, "Erase…"@, "Erase options"@, threaded && !protected(snapshot)),
        op("6"@, "LTFS Operations…"@, "Open workflows"@, threaded),
        op("7"@, "Sequential Operations…"@, "RAW / TAR"@, threaded),
        hint_line("F1"@, "Overview"@),
        hint_line("F3"@, "Health"@),
        hint_line("F4"@, "Jobs"@),
        hint_line("R"@, "Refresh"@),
        hint_line("Q"@, "Back / Exit"@),
        LineModel::Status(s.note.status@),
    ]
}

fn add_operation(
    lines: &mut Lines,
    key: &str,
    action: &str,
    what: &str,
    available: bool,
    locked: bool,
)
    ensures
        final(lines)@ == old(lines)@.push(
            cartridge_line(key@, action@, what@, available && !locked, locked),
        ),
{
    lines.push(cartridge_operation_line(key, action, what, available && !locked, locked));
}

/// What can be done with the cartridge.
pub fn operations_lines(s: &UiState, snapshot: &DeviceSnapshot) -> (lines: Lines)
    ensures
        lines@ == operations_page(*s, *snapshot),
{
    let locked = selected_device_claimed(s);
    let empty = snapshot.lifecycle == MediaLifecycle::NoMediaDetected;
    let inserted = snapshot.lifecycle == MediaLifecycle::PresentUnthreaded;
    let threaded = snapshot.lifecycle == MediaLifecycle::LoadedThreaded;
    let erasable = threaded && !is_protected(snapshot);
    let mut lines = Lines::new();
    add_operation(&mut lines, "1", "Load Unthreaded", "Insert only", empty, locked);
    add_operation(
        &mut lines,
        "2",
        "Load & Thread",
        "Insert & thread",
        empty || inserted,
        locked,
    );
    add_operation(&mut lines, "3", "Unthread", "Keep inserted", threaded, locked);
    add_operation(&mut lines, "4", "Eject", "Eject directly", inserted || threaded, locked);
    add_operation(&mut lines, "5", "Erase…", "Erase options", erasable, locked);
    add_operation(&mut lines, "6", "LTFS Operations…", "Open workflows", threaded, locked);
    add_operation(&mut lines, "7", "Sequential Operations…", "RAW / TAR", threaded, locked);
    lines.hint("F1", "Overview");
    lines.hint("F3", "Health");
    lines.hint("F4", "Jobs");
    lines.hint("R", "Refresh");
    lines.hint("Q", "Back / Exit");
    lines.status(s.note.status.as_str());
    assert(lines@ =~= operations_page(*s, *snapshot));
    lines
}

// ---------------------------------------------------------------------------
// The volume
// ---------------------------------------------------------------------------

/// The name of a consistency.
pub open spec fn consistency_name(c: VolumeConsistency) -> Seq<char> {
    match c {
        VolumeConsistency::Healthy => "Healthy"@,
        VolumeConsistency::MamUnavailable => "MamUnavailable"@,
        VolumeConsistency::NoUsableIndex => "NoUsableIndex"@,
        VolumeConsistency::IndexCopyMissing => "IndexCopyMissing"@,
        VolumeConsistency::DivergentIndexes => "DivergentIndexes"@,
        VolumeConsistency::ForeignIndex => "ForeignIndex"@,
        VolumeConsistency::InvalidIndexLocation => "InvalidIndexLocation"@,
        VolumeConsistency::StaleVci => "StaleVci"@,
        VolumeConsistency::DivergentVci => "DivergentVci"@,
        VolumeConsistency::DivergentLabels => "DivergentLabels"@,
        VolumeConsistency::UnindexedTail => "UnindexedTail"@,
    }
}

pub fn name_of_consistency(c: VolumeConsistency) -> (text: &'static str)
    ensures
        text@ == consistency_name(c),
{
    match c {
        VolumeConsistency::Healthy => "Healthy",
        VolumeConsistency::MamUnavailable => "MamUnavailable",
        VolumeConsistency::NoUsableIndex => "NoUsableIndex",
        VolumeConsistency::IndexCopyMissing => "IndexCopyMissing",
        VolumeConsistency::DivergentIndexes => "DivergentIndexes",
        VolumeConsistency::ForeignIndex => "ForeignIndex",
        VolumeConsistency::InvalidIndexLocation => "InvalidIndexLocation",
        VolumeConsistency::StaleVci => "StaleVci",
        VolumeConsistency::DivergentVci => "DivergentVci",
        VolumeConsistency::DivergentLabels => "DivergentLabels",
        VolumeConsistency::UnindexedTail => "UnindexedTail",
    }
}

/// A number with its sign.
pub open spec fn signed_text(n: int) -> Seq<char> {
    if n < 0 {
        "-"@ + decimal_spec((-n) as nat)
    } else {
        decimal_spec(n as nat)
    }
}

pub fn signed(n: i32) -> (text: String)
    ensures
        text@ == signed_text(n as int),
{
    if n < 0 {
        cat2("-", decimal((-(n as i64)) as u64).as_str())
    } else {
        decimal(n as u64)
    }
}

/// The block that the tape stands at, or a dash.
pub open spec fn tape_block(media: Option<MediaInfo>) -> Seq<char> {
    match media {
        Some(m) => match m.tape_status {
            Some(status) => signed_text(status.block_no as int),
            None => "—"@,
        },
        None => "—"@,
    }
}

fn block_of_tape(media: &Option<MediaInfo>) -> (text: String)
    ensures
        text@ == tape_block(*media),
{
    match media {
        Some(m) => match &m.tape_status {
            Some(status) => signed(status.block_no),
            None => "—".to_owned(),
        },
        None => "—".to_owned(),
    }
}

/// The label of the volume of a snapshot.
pub open spec fn snapshot_label(snapshot: DeviceSnapshot) -> Option<Label> {
    match snapshot.volume {
        Some(v) => v.label,
        None => None,
    }
}

/// The index of the volume of a snapshot.
pub open spec fn snapshot_index(snapshot: DeviceSnapshot) -> Option<Index> {
    match snapshot.volume {
        Some(v) => v.index,
        None => None,
    }
}

/// What is known of the volume.
pub open spec fn volume_page(snapshot: DeviceSnapshot) -> Seq<LineModel> {
    let label = snapshot_label(snapshot);
    let index = snapshot_index(snapshot);
    seq![
        fact_line(
            "Volume Name"@,
            match index {
                Some(i) => text_or(i.volume_name, "—"@),
                None => "—"@,
            },
        ),
        fact_line(
            "Generation"@,
            match index {
                Some(i) => decimal_spec(i.generation as nat),
                None => "—"@,
            },
        ),
        fact_line(
            "Index Partition"@,
            match label {
                Some(l) => decimal_spec(l.index_partition as nat),
                None => "—"@,
            },
        ),
        fact_line(
            "Data Partition"@,
            match label {
                Some(l) => decimal_spec(l.data_partition as nat),
                None => "—"@,
            },
        ),
        fact_line("Current Partition"@, tape_partition(snapshot.media)),
        fact_line("Logical Block"@, tape_block(snapshot.media)),
        fact_line(
            "Index Status"@,
            if index is Some {
                "OK"@
            } else {
                "Unavailable"@
            },
        ),
        fact_line(
            "Index / VCI"@,
            match snapshot.diagnosis {
                Some(d) => consistency_name(d.consistency),
                None => "Unavailable"@,
            },
        ),
        fact_line(
            "Normal Write"@,
            match snapshot.diagnosis {
                Some(d) => if d.safe_for_normal_write {
                    "Allowed"@
                } else {
                    "Blocked"@
                },
                None => "Unknown"@,
            },
        ),
    ]
}

/// What is known of the volume.
pub fn volume_lines(snapshot: &DeviceSnapshot) -> (lines: Lines)
    ensures
        lines@ == volume_page(*snapshot),
{
    let none_label: Option<Label> = None;
    let none_index: Option<Index> = None;
    let (label, index) = match &snapshot.volume {
        Some(v) => (&v.label, &v.index),
        None => (&none_label, &none_index),
    };
    assert(*label == snapshot_label(*snapshot));
    assert(*index == snapshot_index(*snapshot));
    let (name, generation, known) = match index {
        Some(i) => (text_else(&i.volume_name, "—"), decimal(i.generation), "OK"),
        None => ("—".to_owned(), "—".to_owned(), "Unavailable"),
    };
    let (at_index, at_data) = match label {
        Some(l) => (decimal(l.index_partition as u64), decimal(l.data_partition as u64)),
        None => ("—".to_owned(), "—".to_owned()),
    };
    let (consistency, writes) = match &snapshot.diagnosis {
        Some(d) => (
            name_of_consistency(d.consistency),
            if d.safe_for_normal_write {
                "Allowed"
            } else {
                "Blocked"
            },
        ),
        None => ("Unavailable", "Unknown"),
    };
    let mut lines = Lines::new();
    lines.fact("Volume Name", name.as_str());
    lines.fact("Generation", generation.as_str());
    lines.fact("Index Partition", at_index.as_str());
    lines.fact("Data Partition", at_data.as_str());
    lines.fact("Current Partition", partition_of_tape(&snapshot.media).as_str());
    lines.fact("Logical Block", block_of_tape(&snapshot.media).as_str());
    lines.fact("Index Status", known);
    lines.fact("Index / VCI", consistency);
    lines.fact("Normal Write", writes);
    assert(lines@ =~= volume_page(*snapshot));
    lines
}

/// Why the volume is not shown: a heading, and what stands below it.
pub open spec fn ltfs_notice_words(s: UiState, snapshot: DeviceSnapshot) -> Option<
    (Seq<char>, Seq<char>),
> {
    if !(snapshot.lifecycle is LoadedThreaded) {
        Some((" LTFS Volume "@, "LTFS unavailable until media is loaded / threaded"@))
    } else if !s.device.ltfs_read {
        Some((" LTFS Operations "@, "Reading LTFS partitions, label, index and consistency…"@))
    } else {
        None
    }
}

/// Why the volume is not shown: a heading, and what stands below it.
pub fn ltfs_notice(s: &UiState, snapshot: &DeviceSnapshot) -> (notice: Option<
    (&'static str, &'static str),
>)
    ensures
        match notice {
            Some((heading, text)) => ltfs_notice_words(*s, *snapshot) == Some((heading@, text@)),
            None => ltfs_notice_words(*s, *snapshot) is None,
        },
{
    if snapshot.lifecycle != MediaLifecycle::LoadedThreaded {
        Some((" LTFS Volume ", "LTFS unavailable until media is loaded / threaded"))
    } else if !s.device.ltfs_read {
        Some((" LTFS Operations ", "Reading LTFS partitions, label, index and consistency…"))
    } else {
        None
    }
}

/// The first `n` warnings, a line each.
pub open spec fn warning_page(snapshot: DeviceSnapshot, n: nat) -> Seq<LineModel> {
    Seq::new(n, |i: int| text_line(snapshot.warnings@[i]@, Tone::Plain))
}

/// The warnings, a line each.
pub fn warning_lines(snapshot: &DeviceSnapshot) -> (lines: Lines)
    ensures
        lines@ == warning_page(*snapshot, snapshot.warnings@.len()),
{
    let mut lines = Lines::new();
    let mut i: usize = 0;
    assert(lines@ =~= warning_page(*snapshot, 0));
    while i < snapshot.warnings.len()
        invariant
            i <= snapshot.warnings@.len(),
            lines@ == warning_page(*snapshot, i as nat),
        decreases snapshot.warnings@.len() - i,
    {
        lines.text(snapshot.warnings[i].as_str(), Tone::Plain);
        i = i + 1;
        assert(lines@ =~= warning_page(*snapshot, i as nat));
    }
    lines
}

/// What can be done with the volume.
pub open spec fn ltfs_operations_page(s: UiState, snapshot: DeviceSnapshot) -> Seq<LineModel> {
    seq![
        ltfs_line("1"@, "Read LTFS…"@, snapshot_index(snapshot) is Some),
        ltfs_line(
            "2"@,
            "Write LTFS…"@,
            snapshot.diagnosis is Some && snapshot.diagnosis->0.safe_for_normal_write,
        ),
        ltfs_line("3"@, "Format LTFS…"@, !protected(snapshot) && !device_claimed(s)),
        LineModel::Blank,
        LineModel::Status(s.note.status@),
        LineModel::Blank,
        hint_line("F1"@, "Overview"@),
        hint_line("F3"@, "Health"@),
        hint_line("F4"@, "Jobs"@),
        hint_line("Q"@, "Back / Exit"@),
    ]
}

/// What can be done with the volume.
pub fn ltfs_operations_lines(s: &UiState, snapshot: &DeviceSnapshot) -> (lines: Lines)
    ensures
        lines@ == ltfs_operations_page(*s, *snapshot),
{
    let readable = match &snapshot.volume {
        Some(v) => v.index.is_some(),
        None => false,
    };
    let writable = match &snapshot.diagnosis {
        Some(d) => d.safe_for_normal_write,
        None => false,
    };
    let formattable = !is_protected(snapshot) && !selected_device_claimed(s);
    let mut lines = Lines::new();
    lines.push(ltfs_operation_line("1", "Read LTFS…", readable));
    lines.push(ltfs_operation_line("2", "Write LTFS…", writable));
    lines.push(ltfs_operation_line("3", "Format LTFS…", formattable));
    lines.blank();
    lines.status(s.note.status.as_str());
    lines.blank();
    lines.hint("F1", "Overview");
    lines.hint("F3", "Health");
    lines.hint("F4", "Jobs");
    lines.hint("Q", "Back / Exit");
    assert(lines@ =~= ltfs_operations_page(*s, *snapshot));
    lines
}

// ---------------------------------------------------------------------------
// Sequential work
// ---------------------------------------------------------------------------

/// The name of a mode.
pub open spec fn sequential_name(mode: SequentialMode) -> Seq<char> {
    match mode {
        SequentialMode::RawWrite => "RawWrite"@,
        SequentialMode::TarWrite => "TarWrite"@,
        SequentialMode::RawRead => "RawRead"@,
        SequentialMode::TarRead => "TarRead"@,
    }
}

fn name_of_mode(mode: SequentialMode) -> (text: &'static str)
    ensures
        text@ == sequential_name(mode),
{
    match mode {
        SequentialMode::RawWrite => "RawWrite",
        SequentialMode::TarWrite => "TarWrite",
        SequentialMode::RawRead => "RawRead",
        SequentialMode::TarRead => "TarRead",
    }
}

/// What the memory of the cartridge says, by its name.
pub open spec fn mam_status_name(s: UiState) -> Seq<char> {
    match s.sequential.mam {
        Some(mam) => match mam.status {
            RawMamStatus::LtfsDetected => "Some(LtfsDetected)"@,
            RawMamStatus::NoLtfs => "Some(NoLtfs)"@,
            RawMamStatus::Unknown => "Some(Unknown)"@,
        },
        None => "None"@,
    }
}

fn name_of_mam_status(s: &UiState) -> (text: &'static str)
    ensures
        text@ == mam_status_name(*s),
{
    match &s.sequential.mam {
        Some(mam) => match mam.status {
            RawMamStatus::LtfsDetected => "Some(LtfsDetected)",
            RawMamStatus::NoLtfs => "Some(NoLtfs)",
            RawMamStatus::Unknown => "Some(Unknown)",
        },
        None => "None",
    }
}

/// The menu of sequential work.
pub open spec fn sequential_menu_page(s: UiState) -> Seq<LineModel> {
    let locked = device_claimed(s);
    let writable = match s.device.snapshot {
        Some(snapshot) => !protected(snapshot),
        None => true,
    };
    seq![
        ltfs_line("1"@, "Write RAW image…"@, writable && !locked),
        ltfs_line("2"@, "Write TAR archive…"@, writable && !locked),
        ltfs_line("3"@, "Recover RAW image…"@, !locked),
        ltfs_line("4"@, "Recover TAR image…"@, !locked),
        LineModel::Blank,
        text_line(
            "Operations create detached jobs after path and risk confirmation."@,
            Tone::Plain,
        ),
        text_line(
            "TAR recovery writes a complete .tar image; tape-side listing is unavailable."@,
            Tone::Plain,
        ),
        LineModel::Blank,
        LineModel::Status(s.note.status@),
        LineModel::Blank,
        hint_line("Q"@, "Back to Overview"@),
        hint_line("F4"@, "Jobs"@),
    ]
}

/// The last page of sequential work; the room on the host in words.
pub open spec fn sequential_confirm_page(s: UiState, mode: SequentialMode, space: Seq<char>) -> Seq<
    LineModel,
> {
    let plain = |text: Seq<char>| text_line(text, Tone::Plain);
    seq![
        plain("Operation  "@ + sequential_name(mode)),
        plain("Path       "@ + text_or(s.sequential.path, "—"@)),
        plain(
            "MAM format  "@ + (match s.sequential.mam {
                Some(mam) => text_or(mam.application_format, "Unknown"@),
                None => "Unknown"@,
            }) + " / "@ + mam_status_name(s),
        ),
        plain(
            "Destination space  "@ + (if s.sequential.space is Some {
                space
            } else {
                "N/A"@
            }),
        ),
    ] + (if mode.writes() {
        seq![
            plain(
                "MAM overwrite risk acknowledged  "@ + yes_no_text(s.sequential.overwrite_ack),
            ),
            plain("Read-back SHA-256 verification   "@ + yes_no_text(s.start.read_back_verify)),
            LineModel::Blank,
            plain("A Toggle destructive acknowledgement  V Toggle verification"@),
        ]
    } else {
        seq![LineModel::Blank]
    }) + seq![plain("Y Start detached job  Q Back"@)]
}

/// The menu of sequential work.
pub fn sequential_menu_lines(s: &UiState) -> (lines: Lines)
    ensures
        lines@ == sequential_menu_page(*s),
{
    let locked = selected_device_claimed(s);
    let writable = match &s.device.snapshot {
        Some(snapshot) => !is_protected(snapshot),
        None => true,
    };
    let mut lines = Lines::new();
    lines.push(ltfs_operation_line("1", "Write RAW image…", writable && !locked));
    lines.push(ltfs_operation_line("2", "Write TAR archive…", writable && !locked));
    lines.push(ltfs_operation_line("3", "Recover RAW image…", !locked));
    lines.push(ltfs_operation_line("4", "Recover TAR image…", !locked));
    lines.blank();
    lines.text(
        "Operations create detached jobs after path and risk confirmation.",
        Tone::Plain,
    );
    lines.text(
        "TAR recovery writes a complete .tar image; tape-side listing is unavailable.",
        Tone::Plain,
    );
    lines.blank();
    lines.status(s.note.status.as_str());
    lines.blank();
    lines.hint("Q", "Back to Overview");
    lines.hint("F4", "Jobs");
    assert(lines@ =~= sequential_menu_page(*s));
    lines
}

/// The last page of sequential work; the room on the host in words.
pub fn sequential_confirm_lines(s: &UiState, mode: SequentialMode, space: &str) -> (lines: Lines)
    ensures
        lines@ == sequential_confirm_page(*s, mode, space@),
{
    let format = match &s.sequential.mam {
        Some(mam) => text_else(&mam.application_format, "Unknown"),
        None => "Unknown".to_owned(),
    };
    let room = if s.sequential.space.is_some() {
        space
    } else {
        "N/A"
    };
    let mut lines = Lines::new();
    lines.text(cat2("Operation  ", name_of_mode(mode)).as_str(), Tone::Plain);
    lines.text(
        cat2("Path       ", text_else(&s.sequential.path, "—").as_str()).as_str(),
        Tone::Plain,
    );
    lines.text(
        cat4("MAM format  ", format.as_str(), " / ", name_of_mam_status(s)).as_str(),
        Tone::Plain,
    );
    lines.text(cat2("Destination space  ", room).as_str(), Tone::Plain);
    if mode.is_write() {
        lines.text(
            cat2(
                "MAM overwrite risk acknowledged  ",
                yes_no(s.sequential.overwrite_ack),
            ).as_str(),
            Tone::Plain,
        );
        lines.text(
            cat2(
                "Read-back SHA-256 verification   ",
                yes_no(s.start.read_back_verify),
            ).as_str(),
            Tone::Plain,
        );
        lines.blank();
        lines.text("A Toggle destructive acknowledgement  V Toggle verification", Tone::Plain);
    } else {
        lines.blank();
    }
    lines.text("Y Start detached job  Q Back", Tone::Plain);
    assert(lines@ =~= sequential_confirm_page(*s, mode, space@));
    lines
}

/// What stands before a row: whether it is the selected one.
pub open spec fn row_mark(selected: bool) -> Seq<char> {
    if selected {
        ">"@
    } else {
        " "@
    }
}

fn mark_of_row(selected: bool) -> (text: &'static str)
    ensures
        text@ == row_mark(selected),
{
    if selected {
        ">"
    } else {
        " "
    }
}

/// A mount in a list of sequential work.
pub open spec fn mount_words(mount: MountedFilesystem, selected: bool) -> Seq<char> {
    row_mark(selected) + " "@ + right_padded(
        if mount.network {
            "Network"@
        } else {
            "Local"@
        },
        8,
        ' ',
    ) + " "@ + right_padded(mount.filesystem_type@, 10, ' ') + " "@ + mount.mount_point@
}

/// A mount in a list of sequential work.
pub fn sequential_mount_line(mount: &MountedFilesystem, selected: bool) -> (text: String)
    ensures
        text@ == mount_words(*mount, selected),
{
    cat7(
        mark_of_row(selected),
        " ",
        pad_right(
            if mount.network {
                "Network"
            } else {
                "Local"
            },
            8,
            ' ',
        ).as_str(),
        " ",
        pad_right(mount.filesystem_type.as_str(), 10, ' ').as_str(),
        " ",
        mount.mount_point.as_str(),
    )
}

/// The name of a kind of entry.
pub open spec fn entry_kind_name(kind: BrowserEntryKind) -> Seq<char> {
    match kind {
        BrowserEntryKind::Directory => "Directory"@,
        BrowserEntryKind::File => "File"@,
        BrowserEntryKind::Symlink => "Symlink"@,
        BrowserEntryKind::Other => "Other"@,
    }
}

fn name_of_entry_kind(kind: BrowserEntryKind) -> (text: &'static str)
    ensures
        text@ == entry_kind_name(kind),
{
    match kind {
        BrowserEntryKind::Directory => "Directory",
        BrowserEntryKind::File => "File",
        BrowserEntryKind::Symlink => "Symlink",
        BrowserEntryKind::Other => "Other",
    }
}

/// An entry of a host directory in a list of sequential work.
pub open spec fn entry_words(entry: BrowserEntry, selected: bool) -> Seq<char> {
    row_mark(selected) + " "@ + right_padded(entry_kind_name(entry.kind), 8, ' ') + " "@
        + entry.name@
}

/// An entry of a host directory in a list of sequential work.
pub fn sequential_entry_line(entry: &BrowserEntry, selected: bool) -> (text: String)
    ensures
        text@ == entry_words(*entry, selected),
{
    cat5(
        mark_of_row(selected),
        " ",
        pad_right(name_of_entry_kind(entry.kind), 8, ' ').as_str(),
        " ",
        entry.name.as_str(),
    )
}

/// The first `n` mounts of sequential work.
pub open spec fn sequential_mount_rows(s: UiState, n: nat) -> Seq<LineModel> {
    Seq::new(
        n,
        |i: int| text_line(mount_words(s.files.mounts@[i], i == s.files.index), Tone::Plain),
    )
}

/// The mounts of sequential work, and the keys.
pub fn sequential_mounts_lines(s: &UiState) -> (lines: Lines)
    ensures
        lines@ == sequential_mount_rows(*s, s.files.mounts@.len()).push(
            text_line("Enter Browse  Q Back"@, Tone::Plain),
        ),
{
    let mut lines = Lines::new();
    let mut i: usize = 0;
    assert(lines@ =~= sequential_mount_rows(*s, 0));
    while i < s.files.mounts.len()
        invariant
            i <= s.files.mounts@.len(),
            lines@ == sequential_mount_rows(*s, i as nat),
        decreases s.files.mounts@.len() - i,
    {
        let text = sequential_mount_line(&s.files.mounts[i], i == s.files.index);
        lines.text(text.as_str(), Tone::Plain);
        i = i + 1;
        assert(lines@ =~= sequential_mount_rows(*s, i as nat));
    }
    lines.text("Enter Browse  Q Back", Tone::Plain);
    lines
}

/// The first `n` entries of the host directory of sequential work.
pub open spec fn sequential_entry_rows(s: UiState, n: nat) -> Seq<LineModel> {
    Seq::new(
        n,
        |i: int| text_line(entry_words(s.files.entries@[i], i == s.files.index), Tone::Plain),
    )
}

/// The host directory of sequential work, and the keys.
pub fn sequential_directory_lines(s: &UiState) -> (lines: Lines)
    ensures
        lines@ == sequential_entry_rows(*s, s.files.entries@.len()).push(
            text_line(
                if s.sequential.mode is Some && s.sequential.mode->0.writes() {
                    "Enter Open directory  Space Select source  Esc Parent"@
                } else {
                    "Enter Open directory  S Use current directory  Esc Parent"@
                },
                Tone::Plain,
            ),
        ),
{
    let mut lines = Lines::new();
    let mut i: usize = 0;
    assert(lines@ =~= sequential_entry_rows(*s, 0));
    while i < s.files.entries.len()
        invariant
            i <= s.files.entries@.len(),
            lines@ == sequential_entry_rows(*s, i as nat),
        decreases s.files.entries@.len() - i,
    {
        let text = sequential_entry_line(&s.files.entries[i], i == s.files.index);
        lines.text(text.as_str(), Tone::Plain);
        i = i + 1;
        assert(lines@ =~= sequential_entry_rows(*s, i as nat));
    }
    let writing = match s.sequential.mode {
        Some(mode) => mode.is_write(),
        None => false,
    };
    lines.text(
        if writing {
            "Enter Open directory  Space Select source  Esc Parent"
        } else {
            "Enter Open directory  S Use current directory  Esc Parent"
        },
        Tone::Plain,
    );
    lines
}

/// The page on which the name of a recovery image is typed.
pub fn sequential_filename_lines(s: &UiState) -> (lines: Lines)
    ensures
        lines@ == seq![
            text_line("Recovery image filename"@, Tone::Plain),
            text_line("> "@ + s.sequential.filename@, Tone::Plain),
            text_line("Enter Continue  Esc Back"@, Tone::Plain),
        ],
{
    let mut lines = Lines::new();
    lines.text("Recovery image filename", Tone::Plain);
    lines.text(cat2("> ", s.sequential.filename.as_str()).as_str(), Tone::Plain);
    lines.text("Enter Continue  Esc Back", Tone::Plain);
    assert(lines@ =~= seq![
        text_line("Recovery image filename"@, Tone::Plain),
        text_line("> "@ + s.sequential.filename@, Tone::Plain),
        text_line("Enter Continue  Esc Back"@, Tone::Plain),
    ]);
    lines
}

// ---------------------------------------------------------------------------
// Errors
// ---------------------------------------------------------------------------

/// What went wrong, with the warnings.
pub open spec fn error_page(s: UiState) -> Seq<char> {
    text_or(s.note.last_error, "No operation error recorded"@) + (match s.device.snapshot {
        Some(snapshot) => if snapshot.warnings@.len() > 0 {
            "\n\nWarnings:\n"@ + joined(views(snapshot.warnings@), "\n"@)
        } else {
            ""@
        },
        None => ""@,
    })
}

/// What went wrong, with the warnings.
pub fn error_text(s: &UiState) -> (text: String)
    ensures
        text@ == error_page(*s),
{
    let mut text = text_else(&s.note.last_error, "No operation error recorded");
    match &s.device.snapshot {
        Some(snapshot) => {
            if snapshot.warnings.len() > 0 {
                let list = join(&snapshot.warnings, "\n");
                let more = cat2("\n\nWarnings:\n", list.as_str());
                text.append(more.as_str());
            } else {
                text.append("");
            }
        },
        None => {
            text.append("");
        },
    }
    text
}

} // verus!
