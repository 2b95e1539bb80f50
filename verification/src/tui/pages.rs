//! The pages of the workflows: erase, format, write, read and sequential work.
use vstd::prelude::*;
use vstd::string::*;

use super::browse::{find_root_in, find_tape_in, root_position, shown_index, tape_position, index_shown};
use super::events::{
    count_directories, directories_are_kept, directories_stay_in_place, only_directories,
};
use super::source_keys::{capacity_requires_ack, wants_ack};
use super::start::{cartridge_label, label_of_cartridge};
use super::state::{EraseView, FormatField, FormatView, ReadPlan, ReadView, SourceView, UiState};
use super::view::{
    fact_line, text_else, text_line, text_or, yes_no, yes_no_text, LineModel, Lines, ShownLine, Tone,
};
use crate::app::erase::{mode_name, EraseMode};
use crate::app::mounts::{BrowserEntry, BrowserEntryKind};
use crate::app::source::{CapacityAssessment, CapacityStatus, SourcePlan};
use crate::device::density::density_name_spec;
use crate::device::MediaInfo;
use crate::job::order::CompletionAction;
use crate::text::{cat2, cat3, decimal, decimal_spec, pad_right, right_padded};

verus! {

// ---------------------------------------------------------------------------
// Erase
// ---------------------------------------------------------------------------

/// The media of the drive that is shown.
pub open spec fn shown_media(s: UiState) -> Option<MediaInfo> {
    match s.device.snapshot {
        Some(snapshot) => snapshot.media,
        None => None,
    }
}

/// The name of the density of the media, or another text.
pub open spec fn density_or(media: Option<MediaInfo>, other: Seq<char>) -> Seq<char> {
    match media {
        Some(m) => match m.density_code {
            Some(code) => match density_name_spec(code) {
                Some(name) => name,
                None => other,
            },
            None => other,
        },
        None => other,
    }
}

pub fn density_else(media: &Option<MediaInfo>, other: &str) -> (text: String)
    ensures
        text@ == density_or(*media, other@),
{
    match media {
        Some(m) => match m.density_name() {
            Some(name) => name.to_owned(),
            None => other.to_owned(),
        },
        None => other.to_owned(),
    }
}

/// The barcode that the cartridge remembers, or a dash.
pub open spec fn mam_barcode(media: Option<MediaInfo>) -> Seq<char> {
    match media {
        Some(m) => match m.mam {
            Some(mam) => text_or(mam.barcode, "—"@),
            None => "—"@,
        },
        None => "—"@,
    }
}

fn barcode_of_mam(media: &Option<MediaInfo>) -> (text: String)
    ensures
        text@ == mam_barcode(*media),
{
    match media {
        Some(m) => match &m.mam {
            Some(mam) => text_else(&mam.barcode, "—"),
            None => "—".to_owned(),
        },
        None => "—".to_owned(),
    }
}

/// The name of the volume that is shown, or a dash.
pub open spec fn shown_volume_name(s: UiState) -> Seq<char> {
    match shown_index(s) {
        Some(index) => text_or(index.volume_name, "—"@),
        None => "—"@,
    }
}

fn volume_name_shown(s: &UiState) -> (text: String)
    ensures
        text@ == shown_volume_name(*s),
{
    match index_shown(s) {
        Some(index) => text_else(&index.volume_name, "—"),
        None => "—".to_owned(),
    }
}

/// The partition that the tape stands in, or a dash.
pub open spec fn tape_partition(media: Option<MediaInfo>) -> Seq<char> {
    match media {
        Some(m) => match m.tape_status {
            Some(status) => decimal_spec(status.partition as nat),
            None => "—"@,
        },
        None => "—"@,
    }
}

pub fn partition_of_tape(media: &Option<MediaInfo>) -> (text: String)
    ensures
        text@ == tape_partition(*media),
{
    match media {
        Some(m) => match &m.tape_status {
            Some(status) => decimal(status.partition as u64),
            None => "—".to_owned(),
        },
        None => "—".to_owned(),
    }
}

/// What is shown of the drive and the cartridge before an erase.
pub open spec fn erase_identity(s: UiState) -> Seq<LineModel> {
    let media = shown_media(s);
    let (name, serial) = match s.device.snapshot {
        Some(snapshot) => (
            snapshot.drive.vendor@ + " "@ + snapshot.drive.model@,
            snapshot.drive.serial@,
        ),
        None => ("— —"@, "—"@),
    };
    seq![
        fact_line("Drive"@, name),
        fact_line("Drive Serial"@, serial),
        fact_line("Cartridge Type"@, density_or(media, "Unknown"@)),
        fact_line("Current Partition"@, tape_partition(media)),
        fact_line("MAM Barcode"@, mam_barcode(media)),
        fact_line(
            "Physical Barcode"@,
            match cartridge_label(media) {
                Some(label) => label,
                None => "—"@,
            },
        ),
        fact_line("Volume Name"@, shown_volume_name(s)),
        LineModel::Blank,
    ]
}

/// The two lines of a mode.
pub open spec fn mode_lines(mode: EraseMode, chosen: EraseMode, title: Seq<char>, detail: Seq<char>) -> Seq<
    LineModel,
> {
    let selected = mode == chosen;
    seq![
        text_line(
            (if selected {
                ">"@
            } else {
                " "@
            }) + " "@ + title,
            if selected {
                Tone::Selected
            } else {
                Tone::Plain
            },
        ),
        text_line("    "@ + detail, Tone::Plain),
    ]
}

/// The modes of an erase.
pub open spec fn erase_modes(s: UiState) -> Seq<LineModel> {
    mode_lines(
        EraseMode::Short,
        s.erase.mode,
        "1  Short erase"@,
        "Fast logical end-of-data reset; old data is not securely overwritten"@,
    ) + mode_lines(
        EraseMode::Long,
        s.erase.mode,
        "2  Full-tape long erase"@,
        "Erases the complete unpartitioned tape; may take many hours; not yet hardware-tested"@,
    ) + mode_lines(
        EraseMode::MinimumPartitionLong,
        s.erase.mode,
        "3  Minimum-partition long erase"@,
        "Runs a limited mechanical/write check, then restores unpartitioned media (~15 min on tested LTO-5)"@,
    )
}

/// The name of a mode in capitals.
pub open spec fn mode_capitals(mode: EraseMode) -> Seq<char> {
    match mode {
        EraseMode::Short => "SHORT"@,
        EraseMode::Long => "LONG"@,
        EraseMode::MinimumPartitionLong => "MINIMUM"@,
    }
}

/// What is shown of how far an erase is; `progress` is how far the drive is, in words.
pub open spec fn erase_progress_lines(s: UiState, progress: Seq<char>) -> Seq<LineModel> {
    let none = Seq::<LineModel>::empty();
    match s.erase.view {
        EraseView::SelectMode => none,
        EraseView::Confirm => seq![
            LineModel::Blank,
            text_line(
                "FINAL CONFIRMATION: "@ + mode_capitals(s.erase.mode)
                    + " ERASE WILL DESTROY ACCESS TO EXISTING DATA"@,
                Tone::Danger,
            ),
        ],
        EraseView::Running => seq![
            LineModel::Blank,
            text_line(s.erase.message@, Tone::Busy),
        ] + (if s.erase.progress is Some {
            seq![fact_line("Device progress"@, progress)]
        } else {
            none
        }),
        EraseView::Complete => seq![
            LineModel::Blank,
            text_line(
                s.erase.message@,
                if s.erase.result is Some {
                    Tone::Good
                } else {
                    Tone::Bad
                },
            ),
        ] + (match s.erase.result {
            Some(result) => seq![
                fact_line("Mode"@, mode_name(result.mode)),
                fact_line(
                    "Elapsed"@,
                    decimal_spec(result.elapsed_seconds as nat) + " seconds"@,
                ),
                fact_line(
                    "LTFS cache"@,
                    "Cleared; return to Overview and use [6] to probe again"@,
                ),
            ],
            None => seq![
                fact_line("Recovery"@, "Inspect Details and media state before Format"@),
            ],
        }),
    }
}

/// The erase page.
pub open spec fn erase_page(s: UiState, progress: Seq<char>) -> Seq<LineModel> {
    erase_identity(s) + erase_modes(s) + erase_progress_lines(s, progress)
}

fn add_erase_identity(lines: &mut Lines, s: &UiState)
    ensures
        final(lines)@ == old(lines)@ + erase_identity(*s),
{
    let none: Option<MediaInfo> = None;
    let (name, serial, media) = match &s.device.snapshot {
        Some(snapshot) => (
            cat3(snapshot.drive.vendor.as_str(), " ", snapshot.drive.model.as_str()),
            snapshot.drive.serial.clone(),
            &snapshot.media,
        ),
        None => ("— —".to_owned(), "—".to_owned(), &none),
    };
    assert(*media == shown_media(*s));
    lines.fact("Drive", name.as_str());
    lines.fact("Drive Serial", serial.as_str());
    lines.fact("Cartridge Type", density_else(media, "Unknown").as_str());
    lines.fact("Current Partition", partition_of_tape(media).as_str());
    lines.fact("MAM Barcode", barcode_of_mam(media).as_str());
    let label = match label_of_cartridge(media) {
        Some(label) => label,
        None => "—".to_owned(),
    };
    lines.fact("Physical Barcode", label.as_str());
    lines.fact("Volume Name", volume_name_shown(s).as_str());
    lines.blank();
    assert(lines@ =~= old(lines)@ + erase_identity(*s));
}

fn add_mode(lines: &mut Lines, mode: EraseMode, chosen: EraseMode, title: &str, detail: &str)
    ensures
        final(lines)@ == old(lines)@ + mode_lines(mode, chosen, title@, detail@),
{
    let selected = mode == chosen;
    lines.text(
        cat3(
            if selected {
                ">"
            } else {
                " "
            },
            " ",
            title,
        ).as_str(),
        if selected {
            Tone::Selected
        } else {
            Tone::Plain
        },
    );
    lines.text(cat2("    ", detail).as_str(), Tone::Plain);
    assert(lines@ =~= old(lines)@ + mode_lines(mode, chosen, title@, detail@));
}

fn add_erase_progress(lines: &mut Lines, s: &UiState, progress: &str)
    ensures
        final(lines)@ == old(lines)@ + erase_progress_lines(*s, progress@),
{
    match s.erase.view {
        EraseView::SelectMode => {},
        EraseView::Confirm => {
            let mode = match s.erase.mode {
                EraseMode::Short => "SHORT",
                EraseMode::Long => "LONG",
                EraseMode::MinimumPartitionLong => "MINIMUM",
            };
            lines.blank();
            lines.text(
                cat3(
                    "FINAL CONFIRMATION: ",
                    mode,
                    " ERASE WILL DESTROY ACCESS TO EXISTING DATA",
                ).as_str(),
                Tone::Danger,
            );
        },
        EraseView::Running => {
            lines.blank();
            lines.text(s.erase.message.as_str(), Tone::Busy);
            if s.erase.progress.is_some() {
                lines.fact("Device progress", progress);
            }
        },
        EraseView::Complete => {
            lines.blank();
            lines.text(
                s.erase.message.as_str(),
                if s.erase.result.is_some() {
                    Tone::Good
                } else {
                    Tone::Bad
                },
            );
            match &s.erase.result {
                Some(result) => {
                    lines.fact("Mode", result.mode.cli_name());
                    lines.fact(
                        "Elapsed",
                        cat2(decimal(result.elapsed_seconds).as_str(), " seconds").as_str(),
                    );
                    lines.fact(
                        "LTFS cache",
                        "Cleared; return to Overview and use [6] to probe again",
                    );
                },
                None => {
                    lines.fact("Recovery", "Inspect Details and media state before Format");
                },
            }
        },
    }
    assert(lines@ =~= old(lines)@ + erase_progress_lines(*s, progress@));
}

/// The erase page; `progress` is how far the drive is, in words.
pub fn erase_lines(s: &UiState, progress: &str) -> (lines: Lines)
    ensures
        lines@ == erase_page(*s, progress@),
{
    let mut lines = Lines::new();
    add_erase_identity(&mut lines, s);
    let ghost first = lines@;
    assert(first =~= erase_identity(*s));
    add_mode(
        &mut lines,
        EraseMode::Short,
        s.erase.mode,
        "1  Short erase",
        "Fast logical end-of-data reset; old data is not securely overwritten",
    );
    add_mode(
        &mut lines,
        EraseMode::Long,
        s.erase.mode,
        "2  Full-tape long erase",
        "Erases the complete unpartitioned tape; may take many hours; not yet hardware-tested",
    );
    add_mode(
        &mut lines,
        EraseMode::MinimumPartitionLong,
        s.erase.mode,
        "3  Minimum-partition long erase",
        "Runs a limited mechanical/write check, then restores unpartitioned media (~15 min on tested LTO-5)",
    );
    assert(lines@ =~= first + erase_modes(*s));
    add_erase_progress(&mut lines, s, progress);
    assert(lines@ =~= erase_page(*s, progress@));
    lines
}

/// What stands below a page: a message, and the keys in the line below it.
pub open spec fn footer(message: Seq<char>, help: Seq<char>) -> Seq<char> {
    message + "\n"@ + help
}

/// What the erase page is about.
pub fn erase_heading() -> (text: &'static str)
    ensures
        text@ == "Tape Erase │ destructive media preparation"@,
{
    "Tape Erase │ destructive media preparation"
}

/// The keys of the erase page.
pub open spec fn erase_help_text(view: EraseView) -> Seq<char> {
    match view {
        EraseView::SelectMode => "↑↓/j k or 1/2/3 Select  Enter Review  Q/Esc Back"@,
        EraseView::Confirm => "Y DESTROY AND ERASE  N/Esc Return to selection"@,
        EraseView::Running =>
            "Erase in progress — exit and all other device commands are disabled"@,
        EraseView::Complete => "Q/Esc Return to Overview"@,
    }
}

/// What stands below the erase page: how the erase stands, and the keys.
pub fn erase_footer(s: &UiState) -> (text: String)
    ensures
        text@ == footer(s.erase.message@, erase_help_text(s.erase.view)),
{
    cat3(s.erase.message.as_str(), "\n", erase_help(s.erase.view))
}

/// The keys of the erase page.
pub fn erase_help(view: EraseView) -> (text: &'static str)
    ensures
        text@ == erase_help_text(view),
{
    match view {
        EraseView::SelectMode => "↑↓/j k or 1/2/3 Select  Enter Review  Q/Esc Back",
        EraseView::Confirm => "Y DESTROY AND ERASE  N/Esc Return to selection",
        EraseView::Running =>
            "Erase in progress — exit and all other device commands are disabled",
        EraseView::Complete => "Q/Esc Return to Overview",
    }
}

// ---------------------------------------------------------------------------
// Format
// ---------------------------------------------------------------------------

/// The line of a field that is typed.
pub open spec fn field_line(
    label: Seq<char>,
    value: Seq<char>,
    behind: Seq<char>,
    typed: bool,
) -> LineModel {
    LineModel::Field { label, value: "[ "@ + value + " ]"@, behind, typed }
}

/// What is shown of how far a format is.
pub open spec fn format_progress_lines(s: UiState) -> Seq<LineModel> {
    let f = s.format;
    match f.view {
        FormatView::Editing => Seq::empty(),
        FormatView::Confirm => seq![
            LineModel::Blank,
            text_line(
                "FINAL CONFIRMATION: ALL EXISTING DATA AND LTFS METADATA WILL BE DESTROYED"@,
                Tone::Danger,
            ),
        ],
        FormatView::Running => seq![LineModel::Blank, text_line(f.message@, Tone::Busy)],
        FormatView::Complete => seq![
            LineModel::Blank,
            text_line(
                f.message@,
                if f.result is Some {
                    Tone::Good
                } else {
                    Tone::Bad
                },
            ),
        ] + (match f.result {
            Some(result) => seq![
                fact_line("Volume UUID"@, result.volume_uuid@),
                fact_line("Generation"@, decimal_spec(result.generation as nat)),
            ],
            None => Seq::<LineModel>::empty(),
        }),
    }
}

/// The format page.
pub open spec fn format_page(s: UiState) -> Seq<LineModel> {
    let f = s.format;
    let id = text_or(f.media_id, "??"@);
    let editing = f.view is Editing;
    seq![
        fact_line("Cartridge Type"@, density_or(shown_media(s), "Unknown LTO media"@)),
        LineModel::Blank,
        field_line(
            "Volume Serial       "@,
            right_padded(f.volume_serial@, 6, ' '),
            "   exactly 6 ASCII letters/digits"@,
            editing && f.field is VolumeSerial,
        ),
        fact_line("Media ID"@, id + " (derived from cartridge density)"@),
        fact_line("Full Barcode"@, f.volume_serial@ + id),
        field_line(
            "Volume Name         "@,
            f.volume_name@,
            ""@,
            editing && f.field is VolumeName,
        ),
        LineModel::Blank,
        fact_line("Compression"@, "Enabled"@),
        fact_line("LTFS block size"@, "512 KiB"@),
        fact_line("Result generation"@, "1"@),
    ] + format_progress_lines(s)
}

fn add_field(
    lines: &mut Lines,
    label: &'static str,
    value: &str,
    behind: &'static str,
    typed: bool,
)
    ensures
        final(lines)@ == old(lines)@.push(field_line(label@, value@, behind@, typed)),
{
    lines.push(ShownLine::Field { label, value: cat3("[ ", value, " ]"), behind, typed });
}

fn add_format_progress(lines: &mut Lines, s: &UiState)
    ensures
        final(lines)@ == old(lines)@ + format_progress_lines(*s),
{
    match s.format.view {
        FormatView::Editing => {},
        FormatView::Confirm => {
            lines.blank();
            lines.text(
                "FINAL CONFIRMATION: ALL EXISTING DATA AND LTFS METADATA WILL BE DESTROYED",
                Tone::Danger,
            );
        },
        FormatView::Running => {
            lines.blank();
            lines.text(s.format.message.as_str(), Tone::Busy);
        },
        FormatView::Complete => {
            lines.blank();
            lines.text(
                s.format.message.as_str(),
                if s.format.result.is_some() {
                    Tone::Good
                } else {
                    Tone::Bad
                },
            );
            match &s.format.result {
                Some(result) => {
                    lines.fact("Volume UUID", result.volume_uuid.as_str());
                    lines.fact("Generation", decimal(result.generation).as_str());
                },
                None => {},
            }
        },
    }
    assert(lines@ =~= old(lines)@ + format_progress_lines(*s));
}

/// The format page.
pub fn format_lines(s: &UiState) -> (lines: Lines)
    ensures
        lines@ == format_page(*s),
{
    let none: Option<MediaInfo> = None;
    let media = match &s.device.snapshot {
        Some(snapshot) => &snapshot.media,
        None => &none,
    };
    assert(*media == shown_media(*s));
    let id = text_else(&s.format.media_id, "??");
    let editing = s.format.view == FormatView::Editing;
    let mut lines = Lines::new();
    lines.fact("Cartridge Type", density_else(media, "Unknown LTO media").as_str());
    lines.blank();
    add_field(
        &mut lines,
        "Volume Serial       ",
        pad_right(s.format.volume_serial.as_str(), 6, ' ').as_str(),
        "   exactly 6 ASCII letters/digits",
        editing && s.format.field == FormatField::VolumeSerial,
    );
    lines.fact("Media ID", cat2(id.as_str(), " (derived from cartridge density)").as_str());
    lines.fact("Full Barcode", cat2(s.format.volume_serial.as_str(), id.as_str()).as_str());
    add_field(
        &mut lines,
        "Volume Name         ",
        s.format.volume_name.as_str(),
        "",
        editing && s.format.field == FormatField::VolumeName,
    );
    lines.blank();
    lines.fact("Compression", "Enabled");
    lines.fact("LTFS block size", "512 KiB");
    lines.fact("Result generation", "1");
    add_format_progress(&mut lines, s);
    assert(lines@ =~= format_page(*s));
    lines
}

/// What the format page is about.
pub fn format_heading() -> (text: &'static str)
    ensures
        text@ == "LTFS Format │ destructive cartridge initialization"@,
{
    "LTFS Format │ destructive cartridge initialization"
}

/// The keys of the format page.
pub open spec fn format_help_text(view: FormatView) -> Seq<char> {
    match view {
        FormatView::Editing =>
            "Type value  Tab/↑↓ Switch field  Backspace Delete  Enter Review  Q/Esc Back"@,
        FormatView::Confirm => "Y DESTROY AND FORMAT  N/Esc/Q Return to editing"@,
        FormatView::Running =>
            "Format in progress — exit and all other device commands are disabled"@,
        FormatView::Complete => "Q/Esc Return to LTFS Operations"@,
    }
}

/// What stands below the format page: how the format stands, and the keys.
pub fn format_footer(s: &UiState) -> (text: String)
    ensures
        text@ == footer(s.format.message@, format_help_text(s.format.view)),
{
    cat3(s.format.message.as_str(), "\n", format_help(s.format.view))
}

/// The keys of the format page.
pub fn format_help(view: FormatView) -> (text: &'static str)
    ensures
        text@ == format_help_text(view),
{
    match view {
        FormatView::Editing =>
            "Type value  Tab/↑↓ Switch field  Backspace Delete  Enter Review  Q/Esc Back",
        FormatView::Confirm => "Y DESTROY AND FORMAT  N/Esc/Q Return to editing",
        FormatView::Running =>
            "Format in progress — exit and all other device commands are disabled",
        FormatView::Complete => "Q/Esc Return to LTFS Operations",
    }
}

// ---------------------------------------------------------------------------
// Write
// ---------------------------------------------------------------------------

/// The warning that a capacity gives.
pub open spec fn capacity_warning(capacity: Option<CapacityAssessment>) -> Seq<char> {
    match capacity {
        Some(c) => match c.status {
            CapacityStatus::WarningAboveNinetyPercent =>
                "Selected data exceeds 90% of available LTFS capacity"@,
            CapacityStatus::BlockedInsufficient =>
                "BLOCKED: selected data exceeds available LTFS capacity"@,
            CapacityStatus::Unknown => "LTFS available capacity is Unknown"@,
            CapacityStatus::Normal => "None"@,
        },
        None => "None"@,
    }
}

fn warning_of(capacity: &Option<CapacityAssessment>) -> (text: &'static str)
    ensures
        text@ == capacity_warning(*capacity),
{
    match capacity {
        Some(c) => match c.status {
            CapacityStatus::WarningAboveNinetyPercent =>
                "Selected data exceeds 90% of available LTFS capacity",
            CapacityStatus::BlockedInsufficient =>
                "BLOCKED: selected data exceeds available LTFS capacity",
            CapacityStatus::Unknown => "LTFS available capacity is Unknown",
            CapacityStatus::Normal => "None",
        },
        None => "None",
    }
}

/// Sizes in words, as they are shown.
#[derive(Debug, PartialEq, Eq)]
pub struct WriteFigures {
    /// The payload of the plan.
    pub payload: String,
    /// The room on the cartridge.
    pub available: String,
    /// The part of it that is planned.
    pub planned: String,
}

/// The last page before a write.
pub open spec fn write_confirmation_page(s: UiState, payload: Seq<char>, available: Seq<char>, planned: Seq<char>) -> Seq<
    LineModel,
> {
    let plan = s.write.plan;
    let confirm = s.start.confirm;
    seq![
        fact_line(
            "Operation"@,
            if confirm {
                "Write LTFS — FINAL CONFIRMATION"@
            } else {
                "Write LTFS"@
            },
        ),
        fact_line(
            "Source roots"@,
            match plan {
                Some(p) => decimal_spec(p.roots@.len()) + " selected"@,
                None => "—"@,
            },
        ),
        fact_line("LTFS destination"@, text_or(s.write.tape_target, "—"@)),
        fact_line(
            "Files"@,
            match plan {
                Some(p) => decimal_spec(p.files@.len()),
                None => "0"@,
            },
        ),
        fact_line(
            "Directories"@,
            match plan {
                Some(p) => decimal_spec(p.directories_total as nat),
                None => "0"@,
            },
        ),
        fact_line(
            "Payload"@,
            if plan is Some {
                payload
            } else {
                "—"@
            },
        ),
        fact_line("LTFS available"@, available),
        fact_line("Planned use"@, planned),
        fact_line("Capacity warning"@, capacity_warning(s.write.capacity)),
        fact_line(
            "Warning acknowledged"@,
            if wants_ack(s.write.capacity) {
                yes_no_text(s.start.capacity_acknowledged)
            } else {
                "Not required"@
            },
        ),
        fact_line("Read-back verify"@, yes_no_text(s.start.read_back_verify)),
        fact_line(
            "Completion action"@,
            match s.start.completion_action {
                CompletionAction::KeepLoaded => "Keep loaded"@,
                CompletionAction::EjectAfterCommit => "Auto Unload / Eject after commit/verify"@,
            },
        ),
        LineModel::Blank,
        text_line(
            if confirm {
                "Press Y to create the detached runner. SSH/TUI exit will not stop the Write."@
            } else {
                "No runner exists yet. Enter advances to the final confirmation."@
            },
            Tone::Plain,
        ),
    ]
}

/// The last page before a write; sizes in words.
pub fn write_confirmation_lines(s: &UiState, figures: &WriteFigures) -> (lines: Lines)
    ensures
        lines@ == write_confirmation_page(
            *s,
            figures.payload@,
            figures.available@,
            figures.planned@,
        ),
{
    let confirm = s.start.confirm;
    let (roots, files, directories, payload) = match &s.write.plan {
        Some(p) => (
            cat2(decimal(p.roots.len() as u64).as_str(), " selected"),
            decimal(p.files.len() as u64),
            decimal(p.directories_total as u64),
            figures.payload.clone(),
        ),
        None => ("—".to_owned(), "0".to_owned(), "0".to_owned(), "—".to_owned()),
    };
    let mut lines = Lines::new();
    lines.fact(
        "Operation",
        if confirm {
            "Write LTFS — FINAL CONFIRMATION"
        } else {
            "Write LTFS"
        },
    );
    lines.fact("Source roots", roots.as_str());
    lines.fact("LTFS destination", text_else(&s.write.tape_target, "—").as_str());
    lines.fact("Files", files.as_str());
    lines.fact("Directories", directories.as_str());
    lines.fact("Payload", payload.as_str());
    lines.fact("LTFS available", figures.available.as_str());
    lines.fact("Planned use", figures.planned.as_str());
    lines.fact("Capacity warning", warning_of(&s.write.capacity));
    lines.fact(
        "Warning acknowledged",
        if capacity_requires_ack(&s.write.capacity) {
            yes_no(s.start.capacity_acknowledged)
        } else {
            "Not required"
        },
    );
    lines.fact("Read-back verify", yes_no(s.start.read_back_verify));
    lines.fact(
        "Completion action",
        match s.start.completion_action {
            CompletionAction::KeepLoaded => "Keep loaded",
            CompletionAction::EjectAfterCommit => "Auto Unload / Eject after commit/verify",
        },
    );
    lines.blank();
    lines.text(
        if confirm {
            "Press Y to create the detached runner. SSH/TUI exit will not stop the Write."
        } else {
            "No runner exists yet. Enter advances to the final confirmation."
        },
        Tone::Plain,
    );
    assert(lines@ =~= write_confirmation_page(
        *s,
        figures.payload@,
        figures.available@,
        figures.planned@,
    ));
    lines
}

/// The name of a capacity status.
pub open spec fn status_name(status: CapacityStatus) -> Seq<char> {
    match status {
        CapacityStatus::Normal => "Normal"@,
        CapacityStatus::WarningAboveNinetyPercent => "WarningAboveNinetyPercent"@,
        CapacityStatus::BlockedInsufficient => "BlockedInsufficient"@,
        CapacityStatus::Unknown => "Unknown"@,
    }
}

fn name_of_status(status: CapacityStatus) -> (text: &'static str)
    ensures
        text@ == status_name(status),
{
    match status {
        CapacityStatus::Normal => "Normal",
        CapacityStatus::WarningAboveNinetyPercent => "WarningAboveNinetyPercent",
        CapacityStatus::BlockedInsufficient => "BlockedInsufficient",
        CapacityStatus::Unknown => "Unknown",
    }
}

/// The first roots of a plan, numbered.
pub open spec fn root_lines(roots: Seq<String>, n: nat) -> Seq<LineModel> {
    Seq::new(
        n,
        |i: int|
            text_line(
                "  "@ + right_padded(decimal_spec((i + 1) as nat), 18, ' ') + roots[i]@,
                Tone::Plain,
            ),
    )
}

/// The page of a plan: at most five roots are named.
pub open spec fn source_plan_page(
    plan: SourcePlan,
    capacity: Option<CapacityAssessment>,
    payload: Seq<char>,
    available: Seq<char>,
    planned: Seq<char>,
) -> Seq<LineModel> {
    let n = plan.roots@.len();
    let named = if n <= 5 {
        n
    } else {
        5
    };
    seq![fact_line("Source roots"@, decimal_spec(n))] + root_lines(plan.roots@, named) + (if n
        > 5 {
        seq![fact_line("  …"@, decimal_spec((n - 5) as nat) + " more"@)]
    } else {
        Seq::<LineModel>::empty()
    }) + seq![
        fact_line("Files"@, decimal_spec(plan.files@.len())),
        fact_line("Directories"@, decimal_spec(plan.directories_total as nat)),
        fact_line("Payload"@, payload),
        fact_line("LTFS available"@, available),
        fact_line("Planned use"@, planned),
        fact_line(
            "Capacity status"@,
            match capacity {
                Some(c) => status_name(c.status),
                None => "Unknown"@,
            },
        ),
        fact_line("Scanned"@, plan.scanned_at@),
    ]
}

/// The page of a plan; sizes in words.
pub fn source_plan_lines(
    plan: &SourcePlan,
    capacity: &Option<CapacityAssessment>,
    figures: &WriteFigures,
) -> (lines: Lines)
    ensures
        lines@ == source_plan_page(
            *plan,
            *capacity,
            figures.payload@,
            figures.available@,
            figures.planned@,
        ),
{
    let n: usize = plan.roots.len();
    let named: usize = if n <= 5 {
        n
    } else {
        5
    };
    let mut lines = Lines::new();
    lines.fact("Source roots", decimal(n as u64).as_str());
    let ghost first = lines@;
    let mut i: usize = 0;
    assert(first + root_lines(plan.roots@, 0) =~= first);
    while i < named
        invariant
            i <= named <= plan.roots@.len(),
            named <= 5,
            lines@ == first + root_lines(plan.roots@, i as nat),
        decreases named - i,
    {
        let text = cat3(
            "  ",
            pad_right(decimal((i + 1) as u64).as_str(), 18, ' ').as_str(),
            plan.roots[i].as_str(),
        );
        lines.text(text.as_str(), Tone::Plain);
        i = i + 1;
        assert(lines@ =~= first + root_lines(plan.roots@, i as nat));
    }
    if n > 5 {
        lines.fact("  …", cat2(decimal((n - 5) as u64).as_str(), " more").as_str());
    }
    lines.fact("Files", decimal(plan.files.len() as u64).as_str());
    lines.fact("Directories", decimal(plan.directories_total as u64).as_str());
    lines.fact("Payload", figures.payload.as_str());
    lines.fact("LTFS available", figures.available.as_str());
    lines.fact("Planned use", figures.planned.as_str());
    lines.fact(
        "Capacity status",
        match capacity {
            Some(c) => name_of_status(c.status),
            None => "Unknown",
        },
    );
    lines.fact("Scanned", plan.scanned_at.as_str());
    assert(lines@ =~= source_plan_page(
        *plan,
        *capacity,
        figures.payload@,
        figures.available@,
        figures.planned@,
    ));
    lines
}

/// The keys of the page on which a write is prepared.
pub open spec fn source_help_text(s: UiState) -> Seq<char> {
    match s.write.view {
        SourceView::Mounts =>
            "↑↓ Select  Enter Browse  Space Toggle  S Scan selection  Q Back"@,
        SourceView::Directory =>
            "↑↓ Select  Enter Open  Space Toggle  S Scan selection  Esc/Backspace Parent  Q Back"@,
        SourceView::Plan => "Enter Continue to LTFS destination  Esc Change source  Q Back"@,
        SourceView::LtfsDestination =>
            "↑↓ Select  Enter Open / select current directory  Esc/Backspace Parent  Q Back"@,
        SourceView::Confirm => if s.start.confirm {
            "Y Start detached Write  N/Esc Return to review  Q Back"@
        } else if wants_ack(s.write.capacity) {
            "A Capacity ack  V Verify  E Auto eject  Enter Continue  Esc Change destination"@
        } else {
            "V Toggle verify  E Toggle auto eject  Enter Continue  Esc Change destination"@
        },
    }
}

/// What stands below the page on which a write is prepared: how things stand, and the keys.
pub fn source_footer(s: &UiState) -> (text: String)
    ensures
        text@ == footer(s.note.status@, source_help_text(*s)),
{
    cat3(s.note.status.as_str(), "\n", source_help(s))
}

/// The keys of the page on which a write is prepared.
pub fn source_help(s: &UiState) -> (text: &'static str)
    ensures
        text@ == source_help_text(*s),
{
    match s.write.view {
        SourceView::Mounts => "↑↓ Select  Enter Browse  Space Toggle  S Scan selection  Q Back",
        SourceView::Directory =>
            "↑↓ Select  Enter Open  Space Toggle  S Scan selection  Esc/Backspace Parent  Q Back",
        SourceView::Plan => "Enter Continue to LTFS destination  Esc Change source  Q Back",
        SourceView::LtfsDestination =>
            "↑↓ Select  Enter Open / select current directory  Esc/Backspace Parent  Q Back",
        SourceView::Confirm => if s.start.confirm {
            "Y Start detached Write  N/Esc Return to review  Q Back"
        } else if capacity_requires_ack(&s.write.capacity) {
            "A Capacity ack  V Verify  E Auto eject  Enter Continue  Esc Change destination"
        } else {
            "V Toggle verify  E Toggle auto eject  Enter Continue  Esc Change destination"
        },
    }
}

// ---------------------------------------------------------------------------
// Rows of lists
// ---------------------------------------------------------------------------

/// A row of a list: what it holds, and whether it is the selected one.
#[derive(Debug, PartialEq, Eq)]
pub struct ListRow {
    pub marked: bool,
    pub kind: &'static str,
    pub name: String,
    /// The size of a file, in bytes.
    pub size: Option<u64>,
    pub selected: bool,
}

/// The model of a row.
#[verifier::ext_equal]
pub struct RowModel {
    pub marked: bool,
    pub kind: Seq<char>,
    pub name: Seq<char>,
    pub size: Option<u64>,
    pub selected: bool,
}

impl View for ListRow {
    type V = RowModel;

    open spec fn view(&self) -> RowModel {
        RowModel {
            marked: self.marked,
            kind: self.kind@,
            name: self.name@,
            size: self.size,
            selected: self.selected,
        }
    }
}

pub open spec fn row_models(list: Seq<ListRow>) -> Seq<RowModel> {
    list.map_values(|r: ListRow| r@)
}

/// The word for a kind of entry.
pub open spec fn kind_word(kind: BrowserEntryKind) -> Seq<char> {
    match kind {
        BrowserEntryKind::Directory => "DIR"@,
        BrowserEntryKind::File => "FILE"@,
        BrowserEntryKind::Symlink => "SYMLINK"@,
        BrowserEntryKind::Other => "OTHER"@,
    }
}

fn word_of_kind(kind: BrowserEntryKind) -> (text: &'static str)
    ensures
        text@ == kind_word(kind),
{
    match kind {
        BrowserEntryKind::Directory => "DIR",
        BrowserEntryKind::File => "FILE",
        BrowserEntryKind::Symlink => "SYMLINK",
        BrowserEntryKind::Other => "OTHER",
    }
}

/// The row of an entry of a host directory.
pub open spec fn host_row(s: UiState, i: int) -> RowModel {
    let e = s.files.entries@[i];
    RowModel {
        marked: root_position(s.write.roots@, e.path@) < s.write.roots@.len(),
        kind: kind_word(e.kind),
        name: e.name@,
        size: e.size,
        selected: i == s.files.index,
    }
}

/// The rows of the host directory that are shown.
pub fn host_rows(s: &UiState, from: usize, to: usize) -> (rows: Vec<ListRow>)
    requires
        from <= to <= s.files.entries@.len(),
    ensures
        row_models(rows@) == Seq::new((to - from) as nat, |i: int| host_row(*s, from + i)),
{
    let ghost wanted = Seq::new((to - from) as nat, |i: int| host_row(*s, from + i));
    let mut rows: Vec<ListRow> = Vec::new();
    let mut i: usize = from;
    assert(row_models(rows@) =~= wanted.subrange(0, 0));
    while i < to
        invariant
            from <= i <= to <= s.files.entries@.len(),
            wanted == Seq::new((to - from) as nat, |i: int| host_row(*s, from + i)),
            row_models(rows@) == wanted.subrange(0, i - from),
        decreases to - i,
    {
        let ghost before = rows@;
        let e = &s.files.entries[i];
        let row = ListRow {
            marked: find_root_in(&s.write.roots, e.path.as_str()) < s.write.roots.len(),
            kind: word_of_kind(e.kind),
            name: e.name.clone(),
            size: e.size,
            selected: i == s.files.index,
        };
        assert(row@ =~= wanted[i - from]);
        rows.push(row);
        assert(row_models(rows@) =~= row_models(before).push(row@));
        i = i + 1;
        assert(row_models(rows@) =~= wanted.subrange(0, i - from));
    }
    assert(wanted.subrange(0, i - from) =~= wanted);
    rows
}

/// The row of the directory at `i` among those of the host directory into which a restore
/// may go.
pub open spec fn restore_row(s: UiState, i: int) -> RowModel {
    RowModel {
        marked: false,
        kind: "DIR"@,
        name: only_directories(s.files.entries@)[i].name@,
        size: None,
        selected: i == s.files.index,
    }
}

/// How many directories a restore may go into.
pub fn restore_count(s: &UiState) -> (count: usize)
    ensures
        count == only_directories(s.files.entries@).len(),
{
    count_directories(&s.files.entries)
}

/// The rows that are shown of the directories that a restore may go into: no other entry
/// of the host directory has a row, and none is marked.
pub fn restore_rows(s: &UiState, from: usize, to: usize) -> (rows: Vec<ListRow>)
    requires
        from <= to <= only_directories(s.files.entries@).len(),
    ensures
        row_models(rows@) == Seq::new((to - from) as nat, |i: int| restore_row(*s, from + i)),
{
    let ghost list = s.files.entries@;
    let ghost all = only_directories(list);
    let ghost wanted = Seq::new((to - from) as nat, |i: int| restore_row(*s, from + i));
    let mut rows: Vec<ListRow> = Vec::new();
    let mut at: usize = 0;
    let mut i: usize = 0;
    assert(list.subrange(0, 0) =~= Seq::<BrowserEntry>::empty());
    assert(row_models(rows@) =~= wanted.subrange(0, 0));
    while i < s.files.entries.len()
        invariant
            i <= list.len(),
            list == s.files.entries@,
            all == only_directories(list),
            from <= to <= all.len(),
            at == only_directories(list.subrange(0, i as int)).len(),
            at <= i,
            wanted == Seq::new((to - from) as nat, |i: int| restore_row(*s, from + i)),
            row_models(rows@) == wanted.subrange(
                0,
                if at < from {
                    0
                } else if at < to {
                    at - from
                } else {
                    to - from
                },
            ),
        decreases list.len() - i,
    {
        let ghost before = rows@;
        let ghost next = list.subrange(0, i + 1);
        proof {
            assert(next.drop_last() =~= list.subrange(0, i as int));
            assert(next.last() == list[i as int]);
            directories_stay_in_place(list, i + 1);
        }
        if s.files.entries[i].kind == BrowserEntryKind::Directory {
            assert(only_directories(next)[at as int] == list[i as int]);
            assert(all.subrange(0, only_directories(next).len() as int)[at as int]
                == list[i as int]);
            if from <= at && at < to {
                let row = ListRow {
                    marked: false,
                    kind: "DIR",
                    name: s.files.entries[i].name.clone(),
                    size: None,
                    selected: at == s.files.index,
                };
                assert(row@ =~= wanted[at - from]);
                rows.push(row);
                assert(row_models(rows@) =~= row_models(before).push(row@));
                assert(row_models(rows@) =~= wanted.subrange(0, at + 1 - from));
            }
            at = at + 1;
        }
        i = i + 1;
    }
    assert(list.subrange(0, i as int) =~= list);
    assert(wanted.subrange(0, to - from) =~= wanted);
    rows
}

/// The heading of the list of directories that a restore may go into.
pub fn restore_heading(s: &UiState) -> (text: String)
    ensures
        text@ == " Restore into: "@ + text_or(s.files.path, "—"@) + " "@,
{
    cat3(" Restore into: ", text_else(&s.files.path, "—").as_str(), " ")
}

/// Where the host directory is listed for a restore, a row stands for the entry at its own
/// place: the row that is shown as selected is the entry that the keys act on.
pub proof fn restore_row_is_the_entry(s: UiState, listed: Seq<BrowserEntry>, i: int)
    requires
        s.files.entries@ == only_directories(listed),
        0 <= i < s.files.entries@.len(),
    ensures
        only_directories(s.files.entries@).len() == s.files.entries@.len(),
        restore_row(s, i) == (RowModel {
            marked: false,
            kind: "DIR"@,
            name: s.files.entries@[i].name@,
            size: None,
            selected: i == s.files.index,
        }),
        s.files.entries@[i].kind is Directory,
{
    directories_are_kept(listed);
}

/// The row of an entry of a directory of the volume.
pub open spec fn tape_row(s: UiState, i: int) -> RowModel {
    let e = s.read.entries@[i];
    RowModel {
        marked: tape_position(s.read.selected@, e.path@) < s.read.selected@.len(),
        kind: if e.directory {
            "DIR"@
        } else {
            "FILE"@
        },
        name: e.name@,
        size: if e.directory {
            None
        } else {
            Some(e.size)
        },
        selected: i == s.files.index,
    }
}

/// The rows of the directory of the volume that are shown.
pub fn tape_rows(s: &UiState, from: usize, to: usize) -> (rows: Vec<ListRow>)
    requires
        from <= to <= s.read.entries@.len(),
    ensures
        row_models(rows@) == Seq::new((to - from) as nat, |i: int| tape_row(*s, from + i)),
{
    let ghost wanted = Seq::new((to - from) as nat, |i: int| tape_row(*s, from + i));
    let mut rows: Vec<ListRow> = Vec::new();
    let mut i: usize = from;
    assert(row_models(rows@) =~= wanted.subrange(0, 0));
    while i < to
        invariant
            from <= i <= to <= s.read.entries@.len(),
            wanted == Seq::new((to - from) as nat, |i: int| tape_row(*s, from + i)),
            row_models(rows@) == wanted.subrange(0, i - from),
        decreases to - i,
    {
        let ghost before = rows@;
        let e = &s.read.entries[i];
        let row = ListRow {
            marked: find_tape_in(&s.read.selected, e.path.as_str()) < s.read.selected.len(),
            kind: if e.directory {
                "DIR"
            } else {
                "FILE"
            },
            name: e.name.clone(),
            size: if e.directory {
                None
            } else {
                Some(e.size)
            },
            selected: i == s.files.index,
        };
        assert(row@ =~= wanted[i - from]);
        rows.push(row);
        assert(row_models(rows@) =~= row_models(before).push(row@));
        i = i + 1;
        assert(row_models(rows@) =~= wanted.subrange(0, i - from));
    }
    assert(wanted.subrange(0, i - from) =~= wanted);
    rows
}

/// The row of a place to write to: the directory itself, or one in it.
pub open spec fn destination_row(s: UiState, i: int) -> RowModel {
    RowModel {
        marked: false,
        kind: if i == 0 {
            "SELECT"@
        } else {
            "DIR"@
        },
        name: if i == 0 {
            ". (this directory)"@
        } else {
            s.write.tape_directories@[i - 1]@
        },
        size: None,
        selected: i == s.files.index,
    }
}

/// The rows of the places to write to that are shown.
pub fn destination_rows(s: &UiState, from: usize, to: usize) -> (rows: Vec<ListRow>)
    requires
        from <= to <= s.write.tape_directories@.len() + 1,
    ensures
        row_models(rows@) == Seq::new((to - from) as nat, |i: int| destination_row(*s, from + i)),
{
    let ghost wanted = Seq::new((to - from) as nat, |i: int| destination_row(*s, from + i));
    let mut rows: Vec<ListRow> = Vec::new();
    let mut i: usize = from;
    assert(row_models(rows@) =~= wanted.subrange(0, 0));
    while i < to
        invariant
            from <= i <= to <= s.write.tape_directories@.len() + 1,
            wanted == Seq::new((to - from) as nat, |i: int| destination_row(*s, from + i)),
            row_models(rows@) == wanted.subrange(0, i - from),
        decreases to - i,
    {
        let ghost before = rows@;
        let row = if i == 0 {
            ListRow {
                marked: false,
                kind: "SELECT",
                name: ". (this directory)".to_owned(),
                size: None,
                selected: i == s.files.index,
            }
        } else {
            ListRow {
                marked: false,
                kind: "DIR",
                name: s.write.tape_directories[i - 1].clone(),
                size: None,
                selected: i == s.files.index,
            }
        };
        assert(row@ =~= wanted[i - from]);
        rows.push(row);
        assert(row_models(rows@) =~= row_models(before).push(row@));
        i = i + 1;
        assert(row_models(rows@) =~= wanted.subrange(0, i - from));
    }
    assert(wanted.subrange(0, i - from) =~= wanted);
    rows
}

/// Whether a mount is among the sources of a write.
pub fn mount_marked(s: &UiState, k: usize) -> (yes: bool)
    requires
        k < s.files.mounts@.len(),
    ensures
        yes == (root_position(s.write.roots@, s.files.mounts@[k as int].mount_point@)
            < s.write.roots@.len()),
{
    find_root_in(&s.write.roots, s.files.mounts[k].mount_point.as_str()) < s.write.roots.len()
}

// ---------------------------------------------------------------------------
// Read
// ---------------------------------------------------------------------------

/// A count of a plan, or zero.
pub open spec fn plan_count(plan: Option<ReadPlan>, pick: spec_fn(ReadPlan) -> nat) -> Seq<char> {
    match plan {
        Some(p) => decimal_spec(pick(p)),
        None => "0"@,
    }
}

/// The page of a plan to read; `payload` in words.
pub open spec fn read_plan_page(s: UiState, payload: Seq<char>) -> Seq<LineModel> {
    let plan = s.read.plan;
    seq![
        fact_line("Selected roots"@, decimal_spec(s.read.selected@.len())),
        fact_line("Directories"@, plan_count(plan, |p: ReadPlan| p.directories as nat)),
        fact_line("Files"@, plan_count(plan, |p: ReadPlan| p.files as nat)),
        fact_line(
            "Logical payload"@,
            if plan is Some {
                payload
            } else {
                "—"@
            },
        ),
        fact_line("Scheduled extents"@, plan_count(plan, |p: ReadPlan| p.extents as nat)),
        fact_line(
            "Tape order"@,
            "partition/start block ascending; output uses file offsets"@,
        ),
        fact_line(
            "Volume UUID"@,
            match plan {
                Some(p) => p.volume_uuid@,
                None => "—"@,
            },
        ),
        fact_line("Index generation"@, plan_count(plan, |p: ReadPlan| p.index_generation as nat)),
    ]
}

/// The page of a plan to read; `payload` in words.
pub fn read_plan_lines(s: &UiState, payload: &str) -> (lines: Lines)
    ensures
        lines@ == read_plan_page(*s, payload@),
{
    let (directories, files, size, extents, uuid, generation) = match &s.read.plan {
        Some(p) => (
            decimal(p.directories as u64),
            decimal(p.files as u64),
            payload.to_owned(),
            decimal(p.extents as u64),
            p.volume_uuid.clone(),
            decimal(p.index_generation),
        ),
        None => (
            "0".to_owned(),
            "0".to_owned(),
            "—".to_owned(),
            "0".to_owned(),
            "—".to_owned(),
            "0".to_owned(),
        ),
    };
    let mut lines = Lines::new();
    lines.fact("Selected roots", decimal(s.read.selected.len() as u64).as_str());
    lines.fact("Directories", directories.as_str());
    lines.fact("Files", files.as_str());
    lines.fact("Logical payload", size.as_str());
    lines.fact("Scheduled extents", extents.as_str());
    lines.fact("Tape order", "partition/start block ascending; output uses file offsets");
    lines.fact("Volume UUID", uuid.as_str());
    lines.fact("Index generation", generation.as_str());
    assert(lines@ =~= read_plan_page(*s, payload@));
    lines
}

/// The last page before a read; `payload` in words.
pub open spec fn read_confirmation_page(s: UiState, payload: Seq<char>) -> Seq<LineModel> {
    let plan = s.read.plan;
    seq![
        fact_line(
            "Operation"@,
            if s.start.confirm {
                "Read LTFS — FINAL CONFIRMATION"@
            } else {
                "Read LTFS"@
            },
        ),
        fact_line("Files"@, plan_count(plan, |p: ReadPlan| p.files as nat)),
        fact_line("Directories"@, plan_count(plan, |p: ReadPlan| p.directories as nat)),
        fact_line(
            "Logical payload"@,
            if plan is Some {
                payload
            } else {
                "—"@
            },
        ),
        fact_line("Destination"@, text_or(s.read.destination, "—"@)),
        fact_line("Overwrite"@, "Never; existing files abort the operation"@),
        fact_line("Execution"@, "Detached; safe across TUI/SSH disconnect"@),
        fact_line("Tape scheduling"@, "All extents in physical forward order"@),
    ]
}

/// The last page before a read; `payload` in words.
pub fn read_confirmation_lines(s: &UiState, payload: &str) -> (lines: Lines)
    ensures
        lines@ == read_confirmation_page(*s, payload@),
{
    let (files, directories, size) = match &s.read.plan {
        Some(p) => (
            decimal(p.files as u64),
            decimal(p.directories as u64),
            payload.to_owned(),
        ),
        None => ("0".to_owned(), "0".to_owned(), "—".to_owned()),
    };
    let mut lines = Lines::new();
    lines.fact(
        "Operation",
        if s.start.confirm {
            "Read LTFS — FINAL CONFIRMATION"
        } else {
            "Read LTFS"
        },
    );
    lines.fact("Files", files.as_str());
    lines.fact("Directories", directories.as_str());
    lines.fact("Logical payload", size.as_str());
    lines.fact("Destination", text_else(&s.read.destination, "—").as_str());
    lines.fact("Overwrite", "Never; existing files abort the operation");
    lines.fact("Execution", "Detached; safe across TUI/SSH disconnect");
    lines.fact("Tape scheduling", "All extents in physical forward order");
    assert(lines@ =~= read_confirmation_page(*s, payload@));
    lines
}

/// The keys of the page on which a read is prepared.
pub open spec fn read_help_text(s: UiState) -> Seq<char> {
    match s.read.view {
        ReadView::TapeBrowser =>
            "↑↓ Select  Enter Open dir  Space Toggle item  A Toggle current dir  S Build plan  Q Back"@,
        ReadView::Plan => "Enter Choose restore destination  Esc Change selection  Q Back"@,
        ReadView::Mounts => "↑↓ Select  Enter Browse mount  Esc Plan  Q Back"@,
        ReadView::Destination =>
            "↑↓ Select  Enter Open dir  S Select current directory  Esc/Backspace Parent  Q Back"@,
        ReadView::Confirm => if s.start.confirm {
            "Y Start detached Read  N/Esc Return to review  Q Back"@
        } else {
            "Enter Final confirmation  Esc Change destination  Q Back"@
        },
    }
}

/// What stands below the page on which a read is prepared: how things stand, and the keys.
pub fn read_footer(s: &UiState) -> (text: String)
    ensures
        text@ == footer(s.note.status@, read_help_text(*s)),
{
    cat3(s.note.status.as_str(), "\n", read_help(s))
}

/// The keys of the page on which a read is prepared.
pub fn read_help(s: &UiState) -> (text: &'static str)
    ensures
        text@ == read_help_text(*s),
{
    match s.read.view {
        ReadView::TapeBrowser =>
            "↑↓ Select  Enter Open dir  Space Toggle item  A Toggle current dir  S Build plan  Q Back",
        ReadView::Plan => "Enter Choose restore destination  Esc Change selection  Q Back",
        ReadView::Mounts => "↑↓ Select  Enter Browse mount  Esc Plan  Q Back",
        ReadView::Destination =>
            "↑↓ Select  Enter Open dir  S Select current directory  Esc/Backspace Parent  Q Back",
        ReadView::Confirm => if s.start.confirm {
            "Y Start detached Read  N/Esc Return to review  Q Back"
        } else {
            "Enter Final confirmation  Esc Change destination  Q Back"
        },
    }
}

} // verus!
