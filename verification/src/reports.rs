//! What the command line tells: one line after another, to the one stream or the other.
//!
//! Figures that are rounded come in as texts.
use vstd::prelude::*;
use vstd::string::*;

use crate::app::append::FileHash;
use crate::app::drives::DriveHealth;
use crate::app::erase::{mode_name, EraseEvent, EraseMode, EraseResult};
use crate::app::format::{FormatEvent, FormatOptions, FormatResult};
use crate::app::mam_report::{MamDiagnostic, MamDiagnosticAttribute, PartitionMamDiagnostic};
use crate::app::snapshot::WriteResult;
use crate::app::telemetry::{CHANNEL_DEFAULT_VISIBLE_SAMPLES, CHANNEL_HISTORY_CAPACITY};
use crate::app::volume::{IndexCandidateDiagnostic, VciCopy, VolumeDiagnosis, VolumeInfo};
use crate::app::write_state::{
    commit_name, phase_name, ChannelTelemetrySample, WriteEvent, WritePhase, WriteVerification,
};
use crate::cli::{
    add_warnings, capital_hex, display_counter, display_dir_name, hex_compact, presence_label, status_flags,
    warning_report, yes_no, yes_no_words, Report,
};
use crate::device::channel_error::ChannelRate;
use crate::device::density::density_name;
use crate::device::log::ErrorCounters;
use crate::device::mtio::TapeStatus;
use crate::device::{label_hint_spec, MamInfo, MediaInfo, MediaPresence, TapeDrive};
use crate::ltfs::index::{directory_at, entry_models, DirectoryEntry, EntryModel, Index, TapePos};
use crate::ltfs::label::bool_text;
use crate::ltfs::mam::VolumeCoherencyInformation;
use crate::text::{
    cat2, cat3, cat4, cat5, cat6, cat7, debug_of, debug_text, decimal, decimal_spec, hex_padded,
    hex_spec, left_padded, lossy_utf8, opt_view, pad_left, pad_right, right_padded,
    utf8_string_lossy,
};
use crate::tui::device_pages::{consistency_name, name_of_consistency, signed, signed_text};
use crate::tui::state::{
    erase_phase_name, erase_phase_text, format_phase_name, format_phase_text,
};
use crate::tui::view::{alert_items, alert_list};

verus! {

// ---------------------------------------------------------------------------
// Lines that may be there
// ---------------------------------------------------------------------------

/// No line.
pub open spec fn no_line() -> Seq<Seq<char>> {
    Seq::empty()
}

/// A line for a value, where there is one.
pub open spec fn value_line(head: Seq<char>, value: Option<Seq<char>>) -> Seq<Seq<char>> {
    match value {
        Some(text) => seq![head + text],
        None => no_line(),
    }
}

/// A line for a text that is not empty.
pub open spec fn filled_line(head: Seq<char>, value: Option<Seq<char>>) -> Seq<Seq<char>> {
    match value {
        Some(text) => if text.len() > 0 {
            seq![head + text]
        } else {
            no_line()
        },
        None => no_line(),
    }
}

fn add_value(report: &mut Report, head: &str, value: &Option<String>)
    ensures
        final(report)@ == old(report)@ + value_line(head@, opt_view(*value)),
{
    match value {
        Some(text) => {
            report.line(cat2(head, text.as_str()));
        },
        None => {},
    }
    assert(report@ =~= old(report)@ + value_line(head@, opt_view(*value)));
}

fn add_filled(report: &mut Report, head: &str, value: &Option<String>)
    ensures
        final(report)@ == old(report)@ + filled_line(head@, opt_view(*value)),
{
    match value {
        Some(text) => {
            if text.as_str().unicode_len() > 0 {
                report.line(cat2(head, text.as_str()));
            }
        },
        None => {},
    }
    assert(report@ =~= old(report)@ + filled_line(head@, opt_view(*value)));
}

// ---------------------------------------------------------------------------
// The drives
// ---------------------------------------------------------------------------

/// A row of the table of drives.
pub open spec fn drive_columns(
    number: Seq<char>,
    vendor: Seq<char>,
    model: Seq<char>,
    serial: Seq<char>,
    tape: Seq<char>,
    generic: Seq<char>,
) -> Seq<char> {
    right_padded(number, 6, ' ') + right_padded(vendor, 10, ' ') + right_padded(model, 20, ' ')
        + right_padded(serial, 16, ' ') + right_padded(tape, 12, ' ') + generic
}

fn columns(
    number: &str,
    vendor: &str,
    model: &str,
    serial: &str,
    tape: &str,
    generic: &str,
) -> (text: String)
    ensures
        text@ == drive_columns(number@, vendor@, model@, serial@, tape@, generic@),
{
    cat6(
        pad_right(number, 6, ' ').as_str(),
        pad_right(vendor, 10, ' ').as_str(),
        pad_right(model, 20, ' ').as_str(),
        pad_right(serial, 16, ' ').as_str(),
        pad_right(tape, 12, ' ').as_str(),
        generic,
    )
}

/// The row of the drive at place `i`.
pub open spec fn drive_row(i: int, d: TapeDrive) -> Seq<char> {
    drive_columns(
        decimal_spec((i + 1) as nat),
        d.vendor@,
        d.model@,
        d.serial@,
        d.nst_path@,
        d.sg_path@,
    )
}

/// The table of drives.
pub open spec fn drives_report(drives: Seq<TapeDrive>) -> Seq<Seq<char>> {
    if drives.len() == 0 {
        seq!["未发现磁带机。"@]
    } else {
        seq![
            drive_columns(
                "序号"@,
                "厂商"@,
                "型号"@,
                "序列号"@,
                "磁带设备"@,
                "SCSI 设备"@,
            ),
        ] + Seq::new(drives.len(), |i: int| drive_row(i, drives[i]))
    }
}

/// The table of drives, numbered from one.
pub fn list_drives(drives: &Vec<TapeDrive>) -> (report: Report)
    ensures
        report@ == drives_report(drives@),
{
    let mut report = Report::new();
    if drives.len() == 0 {
        report.line("未发现磁带机。".to_owned());
        assert(report@ =~= drives_report(drives@));
        return report;
    }
    report.line(
        columns("序号", "厂商", "型号", "序列号", "磁带设备", "SCSI 设备"),
    );
    let ghost wanted = drives_report(drives@);
    let mut i: usize = 0;
    assert(report@ =~= wanted.subrange(0, 1));
    while i < drives.len()
        invariant
            i <= drives@.len(),
            drives@.len() > 0,
            wanted == drives_report(drives@),
            report@ == wanted.subrange(0, i + 1),
        decreases drives@.len() - i,
    {
        let d = &drives[i];
        report.line(
            columns(
                decimal(i as u64 + 1).as_str(),
                d.vendor.as_str(),
                d.model.as_str(),
                d.serial.as_str(),
                d.nst_path.as_str(),
                d.sg_path.as_str(),
            ),
        );
        assert(wanted[i + 1] == drive_row(i as int, drives@[i as int]));
        i = i + 1;
        assert(report@ =~= wanted.subrange(0, i + 1));
    }
    assert(report@ =~= wanted);
    report
}

// ---------------------------------------------------------------------------
// The cartridge
// ---------------------------------------------------------------------------

/// Whether a cartridge is there, in words.
pub open spec fn presence_words(presence: MediaPresence) -> Seq<char> {
    match presence {
        MediaPresence::Loaded => "已装载"@,
        MediaPresence::NotLoaded => "未装载"@,
        MediaPresence::NotReady => "驱动器未就绪"@,
        MediaPresence::Unknown => "未知"@,
    }
}

/// What is told of the status of the drive.
pub open spec fn status_report(st: TapeStatus) -> Seq<Seq<char>> {
    let flags = crate::text::joined(crate::cli::flag_words(st), " "@);
    seq!["  密度:        0x"@ + hex_spec(st.density_code as nat, 2)] + (
    match crate::device::density::density_name_spec(st.density_code) {
        Some(name) => seq!["  格式:        "@ + name],
        None => no_line(),
    }) + seq![
        if st.block_size != 0 {
            "  块大小:      "@ + decimal_spec(st.block_size as nat) + " 字节"@
        } else {
            "  块大小:      可变"@
        },
        "  当前分区:    "@ + decimal_spec(st.partition as nat),
    ] + (if st.file_no >= 0 {
        seq![
            "  位置:        文件 "@ + signed_text(st.file_no as int) + " / 块 "@ + signed_text(
                st.block_no as int,
            ),
        ]
    } else {
        no_line()
    }) + seq![
        "  写保护:      "@ + yes_no_words(
            st.gstat & crate::device::mtio::GMT_WR_PROT != 0,
        ),
    ] + (if flags.len() > 0 {
        seq!["  状态位:      "@ + flags]
    } else {
        no_line()
    })
}

fn add_status(report: &mut Report, st: &TapeStatus)
    ensures
        final(report)@ == old(report)@ + status_report(*st),
{
    report.line(cat2("  密度:        0x", hex_padded(st.density_code as u64, 2).as_str()));
    match density_name(st.density_code) {
        Some(name) => {
            report.line(cat2("  格式:        ", name));
        },
        None => {},
    }
    if st.block_size != 0 {
        report.line(
            cat3("  块大小:      ", decimal(st.block_size as u64).as_str(), " 字节"),
        );
    } else {
        report.line("  块大小:      可变".to_owned());
    }
    report.line(cat2("  当前分区:    ", decimal(st.partition as u64).as_str()));
    if st.file_no >= 0 {
        report.line(
            cat4(
                "  位置:        文件 ",
                signed(st.file_no).as_str(),
                " / 块 ",
                signed(st.block_no).as_str(),
            ),
        );
    }
    report.line(cat2("  写保护:      ", yes_no(st.is_write_protected())));
    let flags = status_flags(st);
    if flags.as_str().unicode_len() > 0 {
        report.line(cat2("  状态位:      ", flags.as_str()));
    }
    assert(report@ =~= old(report)@ + status_report(*st));
}

/// The capacities of a cartridge as they are shown.
pub struct CapacityTexts {
    pub remaining: String,
    pub maximum: String,
    pub written: String,
    pub read: String,
}

/// A line for a figure, where the cartridge has it.
pub open spec fn figure_line(head: Seq<char>, value: Option<u64>, text: Seq<char>) -> Seq<Seq<char>> {
    if value is Some {
        seq![head + text]
    } else {
        no_line()
    }
}

fn add_figure(report: &mut Report, head: &str, value: Option<u64>, text: &str)
    ensures
        final(report)@ == old(report)@ + figure_line(head@, value, text@),
{
    if value.is_some() {
        report.line(cat2(head, text));
    }
    assert(report@ =~= old(report)@ + figure_line(head@, value, text@));
}

/// What is told of the names in the memory of a cartridge.
pub open spec fn names_report(media: MediaInfo, mam: MamInfo) -> Seq<Seq<char>> {
    filled_line("  Barcode:     "@, opt_view(mam.barcode)) + (if mam.barcode is Some
        && mam.barcode->0@.len() > 0 && label_hint_spec(media) is Some {
        seq![
            "  标准8位标签: "@ + label_hint_spec(media)->0
                + "（6 位卷序列 + 介质代际码，供核对物理标签）"@,
        ]
    } else {
        no_line()
    }) + filled_line("  MAM 卷标识:  "@, opt_view(mam.volume_identifier)) + filled_line(
        "  介质厂商:    "@,
        opt_view(mam.medium_manufacturer),
    ) + filled_line("  介质序列号:  "@, opt_view(mam.medium_serial)) + (match mam.medium_type {
        Some(t) => seq!["  介质类型:    0x"@ + hex_spec(t as nat, 2)],
        None => no_line(),
    })
}

/// What is told of the figures in the memory of a cartridge.
pub open spec fn figures_report(mam: MamInfo, texts: CapacityTexts) -> Seq<Seq<char>> {
    figure_line("  剩余容量:    "@, mam.remaining_capacity_mib, texts.remaining@) + figure_line(
        "  最大容量:    "@,
        mam.max_capacity_mib,
        texts.maximum@,
    ) + (match mam.load_count {
        Some(n) => seq!["  装载次数:    "@ + decimal_spec(n as nat)],
        None => no_line(),
    }) + (match mam.tape_alert_flags {
        Some(flags) => if flags != 0 {
            seq!["  TapeAlert:   0x"@ + hex_spec(flags as nat, 16)]
        } else {
            no_line()
        },
        None => no_line(),
    }) + figure_line("  累计写入:    "@, mam.total_written_mib, texts.written@) + figure_line(
        "  累计读取:    "@,
        mam.total_read_mib,
        texts.read@,
    )
}

/// What is told of a cartridge.
pub open spec fn media_report(media: MediaInfo, texts: CapacityTexts) -> Seq<Seq<char>> {
    seq!["介质状态: "@ + presence_words(media.presence)] + (match media.tape_status {
        Some(st) => status_report(st),
        None => match media.density_code {
            Some(code) => seq!["  密度:        0x"@ + hex_spec(code as nat, 2)],
            None => no_line(),
        },
    }) + (match media.mam {
        Some(mam) => names_report(media, mam) + figures_report(mam, texts),
        None => no_line(),
    })
}

fn add_names(report: &mut Report, media: &MediaInfo, mam: &MamInfo)
    ensures
        final(report)@ == old(report)@ + names_report(*media, *mam),
{
    add_filled(report, "  Barcode:     ", &mam.barcode);
    match &mam.barcode {
        Some(barcode) => {
            if barcode.as_str().unicode_len() > 0 {
                match media.full_label_hint() {
                    Some(label) => {
                        report.line(
                            cat3(
                                "  标准8位标签: ",
                                label.as_str(),
                                "（6 位卷序列 + 介质代际码，供核对物理标签）",
                            ),
                        );
                    },
                    None => {},
                }
            }
        },
        None => {},
    }
    add_filled(report, "  MAM 卷标识:  ", &mam.volume_identifier);
    add_filled(report, "  介质厂商:    ", &mam.medium_manufacturer);
    add_filled(report, "  介质序列号:  ", &mam.medium_serial);
    match mam.medium_type {
        Some(t) => {
            report.line(cat2("  介质类型:    0x", hex_padded(t as u64, 2).as_str()));
        },
        None => {},
    }
    assert(report@ =~= old(report)@ + names_report(*media, *mam));
}

fn add_figures(report: &mut Report, mam: &MamInfo, texts: &CapacityTexts)
    ensures
        final(report)@ == old(report)@ + figures_report(*mam, *texts),
{
    add_figure(report, "  剩余容量:    ", mam.remaining_capacity_mib, texts.remaining.as_str());
    add_figure(report, "  最大容量:    ", mam.max_capacity_mib, texts.maximum.as_str());
    match mam.load_count {
        Some(n) => {
            report.line(cat2("  装载次数:    ", decimal(n).as_str()));
        },
        None => {},
    }
    match mam.tape_alert_flags {
        Some(flags) => {
            if flags != 0 {
                report.line(cat2("  TapeAlert:   0x", hex_padded(flags, 16).as_str()));
            }
        },
        None => {},
    }
    add_figure(report, "  累计写入:    ", mam.total_written_mib, texts.written.as_str());
    add_figure(report, "  累计读取:    ", mam.total_read_mib, texts.read.as_str());
    assert(report@ =~= old(report)@ + figures_report(*mam, *texts));
}

/// What is told of a cartridge.
pub fn describe_media(media: &MediaInfo, texts: &CapacityTexts) -> (report: Report)
    ensures
        report@ == media_report(*media, *texts),
{
    let mut report = Report::new();
    report.line(cat2("介质状态: ", presence_label(media.presence)));
    match &media.tape_status {
        Some(st) => {
            add_status(&mut report, st);
        },
        None => match media.density_code {
            Some(code) => {
                report.line(cat2("  密度:        0x", hex_padded(code as u64, 2).as_str()));
            },
            None => {},
        },
    }
    match &media.mam {
        Some(mam) => {
            add_names(&mut report, media, mam);
            add_figures(&mut report, mam, texts);
        },
        None => {},
    }
    assert(report@ =~= media_report(*media, *texts));
    report
}

// ---------------------------------------------------------------------------
// Two streams
// ---------------------------------------------------------------------------

/// A line for the output, or for the error stream.
pub enum Line {
    Out(String),
    Fault(String),
}

/// The model of a line.
pub enum LineModel {
    Out(Seq<char>),
    Fault(Seq<char>),
}

impl View for Line {
    type V = LineModel;

    open spec fn view(&self) -> LineModel {
        match *self {
            Line::Out(text) => LineModel::Out(text@),
            Line::Fault(text) => LineModel::Fault(text@),
        }
    }
}

/// Lines for both streams, in the order in which they are printed.
pub struct Printout {
    pub lines: Vec<Line>,
}

impl View for Printout {
    type V = Seq<LineModel>;

    open spec fn view(&self) -> Seq<LineModel> {
        self.lines@.map_values(|l: Line| l@)
    }
}

impl Printout {
    pub fn new() -> (printout: Printout)
        ensures
            printout@ == Seq::<LineModel>::empty(),
    {
        let printout = Printout { lines: Vec::new() };
        assert(printout@ =~= Seq::<LineModel>::empty());
        printout
    }

    pub fn line(&mut self, line: Line)
        ensures
            final(self)@ == old(self)@.push(line@),
    {
        let ghost before = self@;
        self.lines.push(line);
        assert(self@ =~= before.push(line@));
    }

    pub fn out(&mut self, text: String)
        ensures
            final(self)@ == old(self)@.push(LineModel::Out(text@)),
    {
        self.line(Line::Out(text));
    }

    pub fn err(&mut self, text: String)
        ensures
            final(self)@ == old(self)@.push(LineModel::Fault(text@)),
    {
        self.line(Line::Fault(text));
    }
}

/// Texts on the error stream, each behind the same words.
pub open spec fn errors_of(head: Seq<char>, texts: Seq<String>) -> Seq<LineModel> {
    texts.map_values(|t: String| LineModel::Fault(head + t@))
}

fn add_errors(printout: &mut Printout, head: &str, texts: &Vec<String>)
    ensures
        final(printout)@ == old(printout)@ + errors_of(head@, texts@),
{
    let ghost start = printout@;
    let ghost wanted = errors_of(head@, texts@);
    let mut i: usize = 0;
    assert(start + wanted.subrange(0, 0) =~= start);
    while i < texts.len()
        invariant
            i <= texts@.len(),
            wanted == errors_of(head@, texts@),
            printout@ == start + wanted.subrange(0, i as int),
        decreases texts@.len() - i,
    {
        printout.err(cat2(head, texts[i].as_str()));
        i = i + 1;
        assert(printout@ =~= start + wanted.subrange(0, i as int));
    }
    assert(wanted.subrange(0, i as int) =~= wanted);
}

// ---------------------------------------------------------------------------
// The health of a drive
// ---------------------------------------------------------------------------

/// A counter in words.
pub open spec fn counter_words(value: Option<u64>) -> Seq<char> {
    match value {
        Some(n) => decimal_spec(n as nat),
        None => "n/a"@,
    }
}

/// What is told of the error counters of one direction.
pub open spec fn counters_report(label: Seq<char>, counters: Option<ErrorCounters>) -> Seq<LineModel> {
    match counters {
        None => seq![LineModel::Out(label + "错误计数: 不可用"@)],
        Some(c) => seq![
            LineModel::Out(
                label + "错误计数: corrected="@ + counter_words(c.total_corrected)
                    + "，uncorrected="@ + counter_words(c.uncorrected) + "，processed="@
                    + counter_words(c.data_processed),
            ),
            LineModel::Out(
                "  without-delay="@ + counter_words(c.corrected_without_delay)
                    + "，with-delay="@ + counter_words(c.corrected_with_delay)
                    + "，correction-runs="@ + counter_words(c.correction_processed),
            ),
        ],
    }
}

fn add_counters(printout: &mut Printout, label: &str, counters: &Option<ErrorCounters>)
    ensures
        final(printout)@ == old(printout)@ + counters_report(label@, *counters),
{
    match counters {
        None => {
            printout.out(cat2(label, "错误计数: 不可用"));
        },
        Some(c) => {
            printout.out(
                cat7(
                    label,
                    "错误计数: corrected=",
                    display_counter(c.total_corrected).as_str(),
                    "，uncorrected=",
                    display_counter(c.uncorrected).as_str(),
                    "，processed=",
                    display_counter(c.data_processed).as_str(),
                ),
            );
            printout.out(
                cat6(
                    "  without-delay=",
                    display_counter(c.corrected_without_delay).as_str(),
                    "，with-delay=",
                    display_counter(c.corrected_with_delay).as_str(),
                    "，correction-runs=",
                    display_counter(c.correction_processed).as_str(),
                ),
            );
        },
    }
    assert(printout@ =~= old(printout)@ + counters_report(label@, *counters));
}

/// What is told of the health of a drive.
pub open spec fn health_report(drive: TapeDrive, health: DriveHealth) -> Seq<LineModel> {
    seq![LineModel::Out("磁带机: "@ + drive.sg_path@ + " ("@ + drive.model@ + ")"@)]
        + counters_report("写入"@, health.write_errors) + counters_report(
        "读取"@,
        health.read_errors,
    ) + seq![
        LineModel::Out(
            if health.tape_alerts@.len() == 0 {
                "TapeAlert: 无活动 flag"@
            } else {
                "TapeAlert: "@ + alert_items(health.tape_alerts@)
            },
        ),
    ] + errors_of("警告: "@, health.warnings@) + (match health.write_channels {
        Some(channels) => seq![
            LineModel::Out(
                "写通道 diagnostic baseline: "@ + decimal_spec(channels@.len())
                    + " 个通道"@,
            ),
        ],
        None => Seq::<LineModel>::empty(),
    })
}

/// What is told of the health of a drive.
pub fn describe_health(drive: &TapeDrive, health: &DriveHealth) -> (printout: Printout)
    ensures
        printout@ == health_report(*drive, *health),
{
    let mut printout = Printout::new();
    printout.out(
        cat5("磁带机: ", drive.sg_path.as_str(), " (", drive.model.as_str(), ")"),
    );
    add_counters(&mut printout, "写入", &health.write_errors);
    add_counters(&mut printout, "读取", &health.read_errors);
    if health.tape_alerts.len() == 0 {
        printout.out("TapeAlert: 无活动 flag".to_owned());
    } else {
        printout.out(cat2("TapeAlert: ", alert_list(&health.tape_alerts).as_str()));
    }
    add_errors(&mut printout, "警告: ", &health.warnings);
    match &health.write_channels {
        Some(channels) => {
            printout.out(
                cat3(
                    "写通道 diagnostic baseline: ",
                    decimal(channels.len() as u64).as_str(),
                    " 个通道",
                ),
            );
        },
        None => {},
    }
    assert(printout@ =~= health_report(*drive, *health));
    printout
}

// ---------------------------------------------------------------------------
// A diagnosis
// ---------------------------------------------------------------------------

/// A place, or that there is none, as the fields of the value.
pub open spec fn place_words(place: Option<TapePos>) -> Seq<char> {
    match place {
        Some(p) => "Some(TapePos { partition: "@ + decimal_spec(p.partition as nat)
            + ", startblock: "@ + decimal_spec(p.startblock as nat) + " })"@,
        None => "None"@,
    }
}

fn words_of_place(place: &Option<TapePos>) -> (text: String)
    ensures
        text@ == place_words(*place),
{
    match place {
        Some(p) => cat5(
            "Some(TapePos { partition: ",
            decimal(p.partition as u64).as_str(),
            ", startblock: ",
            decimal(p.startblock).as_str(),
            " })",
        ),
        None => "None".to_owned(),
    }
}

/// Where a candidate lies, and how long it is.
pub open spec fn candidate_head(c: IndexCandidateDiagnostic) -> Seq<char> {
    "P"@ + decimal_spec(c.physical_partition as nat) + " B"@ + decimal_spec(
        c.actual_start_block as nat,
    ) + " "@ + decimal_spec(c.byte_len as nat) + " bytes: "@
}

/// What is told of an index that was found.
pub open spec fn found_index(index: Index) -> Seq<char> {
    ("index gen="@ + decimal_spec(index.generation as nat) + " uuid="@ + index.volume_uuid@
        + " self=p"@ + decimal_spec(index.self_location.partition as nat)) + ("b"@ + decimal_spec(
        index.self_location.startblock as nat,
    ) + " previous="@ + place_words(index.previous_location))
}

/// What is told of a candidate.
pub open spec fn candidate_line(c: IndexCandidateDiagnostic) -> Seq<char> {
    candidate_head(c) + (match c.index {
        Some(index) => found_index(index),
        None => "INVALID: "@ + (match c.parse_error {
            Some(message) => message@,
            None => "未知解析错误"@,
        }),
    })
}

fn line_of_candidate(c: &IndexCandidateDiagnostic) -> (text: String)
    ensures
        text@ == candidate_line(*c),
{
    let head = cat7(
        "P",
        decimal(c.physical_partition as u64).as_str(),
        " B",
        decimal(c.actual_start_block).as_str(),
        " ",
        decimal(c.byte_len as u64).as_str(),
        " bytes: ",
    );
    let tail = match &c.index {
        Some(index) => {
            let first = cat6(
                "index gen=",
                decimal(index.generation).as_str(),
                " uuid=",
                index.volume_uuid.as_str(),
                " self=p",
                decimal(index.self_location.partition as u64).as_str(),
            );
            let second = cat4(
                "b",
                decimal(index.self_location.startblock).as_str(),
                " previous=",
                words_of_place(&index.previous_location).as_str(),
            );
            cat2(first.as_str(), second.as_str())
        },
        None => match &c.parse_error {
            Some(message) => cat2("INVALID: ", message.as_str()),
            None => cat2("INVALID: ", "未知解析错误"),
        },
    };
    cat2(head.as_str(), tail.as_str())
}

/// What is told of a VCI.
pub open spec fn vci_line(copy: VciCopy) -> Seq<char> {
    let vci = copy.1;
    ("P"@ + decimal_spec(copy.0 as nat) + " VCI: gen="@ + decimal_spec(vci.generation as nat)
        + " block="@ + decimal_spec(vci.block as nat)) + (" uuid="@ + vci.volume_uuid@ + " vcr="@
        + capital_hex(vci.vcr@))
}

fn line_of_vci(partition: u8, vci: &VolumeCoherencyInformation) -> (text: String)
    ensures
        text@ == vci_line((partition, *vci)),
{
    let first = cat6(
        "P",
        decimal(partition as u64).as_str(),
        " VCI: gen=",
        decimal(vci.generation).as_str(),
        " block=",
        decimal(vci.block).as_str(),
    );
    let second = cat4(
        " uuid=",
        vci.volume_uuid.as_str(),
        " vcr=",
        hex_compact(vci.vcr.as_slice()).as_str(),
    );
    cat2(first.as_str(), second.as_str())
}

/// The lines of the candidates.
pub open spec fn candidate_lines(list: Seq<IndexCandidateDiagnostic>) -> Seq<Seq<char>> {
    list.map_values(|c: IndexCandidateDiagnostic| candidate_line(c))
}

/// The lines of the VCIs.
pub open spec fn vci_lines(list: Seq<VciCopy>) -> Seq<Seq<char>> {
    list.map_values(|copy: VciCopy| vci_line(copy))
}

/// What is told of a diagnosis.
pub open spec fn diagnosis_report(d: VolumeDiagnosis) -> Seq<Seq<char>> {
    seq![
        "一致性: "@ + consistency_name(d.consistency),
        "普通写入安全: "@ + bool_text(d.safe_for_normal_write),
    ] + value_line("Label UUID: "@, opt_view(d.label_uuid)) + candidate_lines(d.candidates@)
        + vci_lines(d.vci@) + warning_report(d.partition_errors@)
}

fn add_candidates(report: &mut Report, list: &Vec<IndexCandidateDiagnostic>)
    ensures
        final(report)@ == old(report)@ + candidate_lines(list@),
{
    let ghost start = report@;
    let ghost wanted = candidate_lines(list@);
    let mut i: usize = 0;
    assert(start + wanted.subrange(0, 0) =~= start);
    while i < list.len()
        invariant
            i <= list@.len(),
            wanted == candidate_lines(list@),
            report@ == start + wanted.subrange(0, i as int),
        decreases list@.len() - i,
    {
        report.line(line_of_candidate(&list[i]));
        i = i + 1;
        assert(report@ =~= start + wanted.subrange(0, i as int));
    }
    assert(wanted.subrange(0, i as int) =~= wanted);
}

fn add_vcis(report: &mut Report, list: &Vec<VciCopy>)
    ensures
        final(report)@ == old(report)@ + vci_lines(list@),
{
    let ghost start = report@;
    let ghost wanted = vci_lines(list@);
    let mut i: usize = 0;
    assert(start + wanted.subrange(0, 0) =~= start);
    while i < list.len()
        invariant
            i <= list@.len(),
            wanted == vci_lines(list@),
            report@ == start + wanted.subrange(0, i as int),
        decreases list@.len() - i,
    {
        let copy = &list[i];
        report.line(line_of_vci(copy.0, &copy.1));
        i = i + 1;
        assert(report@ =~= start + wanted.subrange(0, i as int));
    }
    assert(wanted.subrange(0, i as int) =~= wanted);
}

/// What is told of a diagnosis.
pub fn describe_diagnosis(d: &VolumeDiagnosis) -> (report: Report)
    ensures
        report@ == diagnosis_report(*d),
{
    let mut report = Report::new();
    report.line(cat2("一致性: ", name_of_consistency(d.consistency)));
    report.line(
        cat2(
            "普通写入安全: ",
            if d.safe_for_normal_write {
                "true"
            } else {
                "false"
            },
        ),
    );
    add_value(&mut report, "Label UUID: ", &d.label_uuid);
    add_candidates(&mut report, &d.candidates);
    add_vcis(&mut report, &d.vci);
    add_warnings(&mut report, &d.partition_errors);
    assert(report@ =~= diagnosis_report(*d));
    report
}

// ---------------------------------------------------------------------------
// The memory of a cartridge
// ---------------------------------------------------------------------------

/// A text without the zeros and spaces at its end.
pub open spec fn without_filling(text: Seq<char>) -> Seq<char>
    decreases text.len(),
{
    if text.len() > 0 && (text.last() == '\0' || text.last() == ' ') {
        without_filling(text.drop_last())
    } else {
        text
    }
}

fn drop_filling(text: &str) -> (kept: String)
    ensures
        kept@ == without_filling(text@),
{
    let chars = crate::text::chars_of(text);
    let mut end: usize = chars.len();
    assert(chars@.subrange(0, end as int) =~= text@);
    while end > 0 && (chars[end - 1] == '\0' || chars[end - 1] == ' ')
        invariant
            end <= chars@.len(),
            without_filling(text@) == without_filling(chars@.subrange(0, end as int)),
        decreases end,
    {
        let ghost now = chars@.subrange(0, end as int);
        assert(now.last() == chars@[end - 1]);
        assert(now.drop_last() =~= chars@.subrange(0, end - 1));
        end = end - 1;
    }
    proof {
        let now = chars@.subrange(0, end as int);
        if end > 0 {
            assert(now.last() == chars@[end - 1]);
        }
    }
    crate::text::string_of(&chars, 0, end)
}

/// An attribute in words.
pub open spec fn attribute_words(a: MamDiagnosticAttribute) -> Seq<char> {
    match a.vci {
        Some(vci) => ("VCI vcr="@ + capital_hex(vci.vcr@) + " gen="@ + decimal_spec(
            vci.generation as nat,
        ) + " block="@ + decimal_spec(vci.block as nat)) + (" uuid="@ + vci.volume_uuid@
            + " version="@ + decimal_spec(vci.acsi_version as nat)),
        None => if a.format == 1 || a.format == 2 {
            debug_text(without_filling(lossy_utf8(a.value@)))
        } else {
            capital_hex(a.value@)
        },
    }
}

fn words_of_attribute(a: &MamDiagnosticAttribute) -> (text: String)
    ensures
        text@ == attribute_words(*a),
{
    match &a.vci {
        Some(vci) => {
            let first = cat6(
                "VCI vcr=",
                hex_compact(vci.vcr.as_slice()).as_str(),
                " gen=",
                decimal(vci.generation).as_str(),
                " block=",
                decimal(vci.block).as_str(),
            );
            let second = cat4(
                " uuid=",
                vci.volume_uuid.as_str(),
                " version=",
                decimal(vci.acsi_version as u64).as_str(),
            );
            cat2(first.as_str(), second.as_str())
        },
        None => if a.format == 1 || a.format == 2 {
            debug_of(drop_filling(utf8_string_lossy(a.value.as_slice()).as_str()).as_str())
        } else {
            hex_compact(a.value.as_slice())
        },
    }
}

/// What is told of an attribute.
pub open spec fn attribute_lines(a: MamDiagnosticAttribute) -> Seq<Seq<char>> {
    seq![
        "  0x"@ + capital_hex(seq![(a.id / 256) as u8, (a.id % 256) as u8]) + "  format="@
            + decimal_spec(a.format as nat) + "  "@ + attribute_words(a),
    ] + value_line("    警告: VCI 解析失败: "@, opt_view(a.parse_warning))
}

fn add_attribute(report: &mut Report, a: &MamDiagnosticAttribute)
    ensures
        final(report)@ == old(report)@ + attribute_lines(*a),
{
    let id: [u8; 2] = [(a.id / 256) as u8, (a.id % 256) as u8];
    assert(id@ =~= seq![(a.id / 256) as u8, (a.id % 256) as u8]);
    report.line(
        cat6(
            "  0x",
            hex_compact(id.as_slice()).as_str(),
            "  format=",
            decimal(a.format as u64).as_str(),
            "  ",
            words_of_attribute(a).as_str(),
        ),
    );
    add_value(report, "    警告: VCI 解析失败: ", &a.parse_warning);
    assert(report@ =~= old(report)@ + attribute_lines(*a));
}

/// What is told of the attributes of a partition.
pub open spec fn attributes_report(list: Seq<MamDiagnosticAttribute>) -> Seq<Seq<char>>
    decreases list.len(),
{
    if list.len() == 0 {
        no_line()
    } else {
        attributes_report(list.drop_last()) + attribute_lines(list.last())
    }
}

/// What is told of the memory of a cartridge.
pub open spec fn partitions_report(list: Seq<PartitionMamDiagnostic>) -> Seq<Seq<char>>
    decreases list.len(),
{
    if list.len() == 0 {
        no_line()
    } else {
        let p = list.last();
        partitions_report(list.drop_last()) + seq![
            ""@,
            "MAM partition "@ + decimal_spec(p.partition as nat) + ":"@,
        ] + attributes_report(p.attributes@)
    }
}

fn add_attributes(report: &mut Report, list: &Vec<MamDiagnosticAttribute>)
    ensures
        final(report)@ == old(report)@ + attributes_report(list@),
{
    let ghost start = report@;
    let mut i: usize = 0;
    assert(start + attributes_report(list@.subrange(0, 0)) =~= start);
    while i < list.len()
        invariant
            i <= list@.len(),
            report@ == start + attributes_report(list@.subrange(0, i as int)),
        decreases list@.len() - i,
    {
        let ghost next = list@.subrange(0, i + 1);
        assert(next.drop_last() =~= list@.subrange(0, i as int));
        add_attribute(report, &list[i]);
        i = i + 1;
        assert(report@ =~= start + attributes_report(next));
    }
    assert(list@.subrange(0, i as int) =~= list@);
}

/// What is told of the memory of a cartridge.
pub fn describe_mam(mam: &MamDiagnostic) -> (report: Report)
    ensures
        report@ == partitions_report(mam.partitions@) + warning_report(mam.warnings@),
{
    let mut report = Report::new();
    let mut i: usize = 0;
    assert(report@ =~= partitions_report(mam.partitions@.subrange(0, 0)));
    while i < mam.partitions.len()
        invariant
            i <= mam.partitions@.len(),
            report@ == partitions_report(mam.partitions@.subrange(0, i as int)),
        decreases mam.partitions@.len() - i,
    {
        let ghost next = mam.partitions@.subrange(0, i + 1);
        assert(next.drop_last() =~= mam.partitions@.subrange(0, i as int));
        let p = &mam.partitions[i];
        report.line("".to_owned());
        report.line(cat3("MAM partition ", decimal(p.partition as u64).as_str(), ":"));
        add_attributes(&mut report, &p.attributes);
        i = i + 1;
        assert(report@ =~= partitions_report(next));
    }
    assert(mam.partitions@.subrange(0, i as int) =~= mam.partitions@);
    add_warnings(&mut report, &mam.warnings);
    report
}

// ---------------------------------------------------------------------------
// A directory
// ---------------------------------------------------------------------------

/// A row of a listing.
pub enum ListingRow {
    Directory { name: String },
    Symlink { name: String, target: String },
    File { name: String, size: u64 },
}

/// The model of a row.
pub enum RowModel {
    Directory(Seq<char>),
    Symlink(Seq<char>, Seq<char>),
    File(Seq<char>, u64),
}

impl View for ListingRow {
    type V = RowModel;

    open spec fn view(&self) -> RowModel {
        match *self {
            ListingRow::Directory { name } => RowModel::Directory(name@),
            ListingRow::Symlink { name, target } => RowModel::Symlink(name@, target@),
            ListingRow::File { name, size } => RowModel::File(name@, size),
        }
    }
}

/// The row of an entry.
pub open spec fn row_of(e: EntryModel) -> RowModel {
    match e {
        EntryModel::Directory(d) => RowModel::Directory(d.name),
        EntryModel::File(f) => match f.symlink_target {
            Some(target) => RowModel::Symlink(f.name, target),
            None => RowModel::File(f.name, f.length),
        },
    }
}

/// The rows of the entries of a directory.
pub open spec fn rows_of(entries: Seq<EntryModel>) -> Seq<RowModel> {
    entries.map_values(|e: EntryModel| row_of(e))
}

/// The listing of a directory, or why there is none.
pub struct Listing {
    pub head: Report,
    pub rows: Vec<ListingRow>,
}

/// The model of a listing.
pub struct ListingModel {
    pub head: Seq<Seq<char>>,
    pub rows: Seq<RowModel>,
}

impl View for Listing {
    type V = ListingModel;

    open spec fn view(&self) -> ListingModel {
        ListingModel {
            head: self.head@,
            rows: self.rows@.map_values(|r: ListingRow| r@),
        }
    }
}

/// The heading of a directory.
pub open spec fn heading(name: Seq<char>, path: Seq<char>) -> Seq<char> {
    if path == "/"@ || path.len() == 0 {
        name + "/"@
    } else {
        path + "/"@
    }
}

/// The listing of a directory of a volume.
pub open spec fn listing_spec(v: VolumeInfo, path: Seq<char>) -> Result<ListingModel, Seq<char>> {
    if !v.recognized {
        Ok(
            ListingModel {
                head: seq!["LTFS: 否（无法浏览）"@] + value_line(
                    "  原因: "@,
                    opt_view(v.reason),
                ),
                rows: Seq::empty(),
            },
        )
    } else {
        match v.index {
            None => Ok(
                ListingModel {
                    head: seq!["没有可用的 index，无法浏览。"@],
                    rows: Seq::empty(),
                },
            ),
            Some(index) => match directory_at(index.root@, path) {
                None => Err("目录不存在: "@ + path),
                Some(d) => Ok(
                    ListingModel {
                        head: seq![
                            heading(d.name, path) + "  (gen "@ + decimal_spec(
                                index.generation as nat,
                            ) + ")"@,
                        ],
                        rows: rows_of(d.entries),
                    },
                ),
            },
        }
    }
}

fn row_for(entry: &DirectoryEntry) -> (row: ListingRow)
    ensures
        row@ == row_of(entry@),
{
    match entry {
        DirectoryEntry::Directory(d) => ListingRow::Directory { name: d.name.clone() },
        DirectoryEntry::File(f) => match &f.symlink_target {
            Some(target) => ListingRow::Symlink {
                name: f.name.clone(),
                target: target.clone(),
            },
            None => ListingRow::File { name: f.name.clone(), size: f.length },
        },
    }
}

fn rows_for(entries: &Vec<DirectoryEntry>) -> (rows: Vec<ListingRow>)
    ensures
        rows@.map_values(|r: ListingRow| r@) == rows_of(entry_models(entries@)),
{
    let mut rows: Vec<ListingRow> = Vec::new();
    let ghost wanted = rows_of(entry_models(entries@));
    let mut i: usize = 0;
    while i < entries.len()
        invariant
            i <= entries@.len(),
            wanted == rows_of(entry_models(entries@)),
            rows@.len() == i,
            forall|j: int| 0 <= j < i ==> #[trigger] rows@[j]@ == wanted[j],
        decreases entries@.len() - i,
    {
        let row = row_for(&entries[i]);
        assert(wanted[i as int] == row_of(entries@[i as int]@));
        rows.push(row);
        i = i + 1;
    }
    assert(rows@.map_values(|r: ListingRow| r@) =~= wanted);
    rows
}

/// The listing of a directory of a volume; an error where there is no such directory.
pub fn list_directory(v: &VolumeInfo, path: &str) -> (result: Result<Listing, String>)
    ensures
        match result {
            Ok(listing) => listing_spec(*v, path@) == Ok::<ListingModel, Seq<char>>(listing@),
            Err(message) => listing_spec(*v, path@) == Err::<ListingModel, Seq<char>>(message@),
        },
{
    let mut head = Report::new();
    let none: Vec<ListingRow> = Vec::new();
    assert(none@.map_values(|r: ListingRow| r@) =~= Seq::<RowModel>::empty());
    if !v.recognized {
        head.line("LTFS: 否（无法浏览）".to_owned());
        add_value(&mut head, "  原因: ", &v.reason);
        assert(head@ =~= seq!["LTFS: 否（无法浏览）"@] + value_line(
            "  原因: "@,
            opt_view(v.reason),
        ));
        return Ok(Listing { head, rows: none });
    }
    match &v.index {
        None => {
            head.line("没有可用的 index，无法浏览。".to_owned());
            assert(head@ =~= seq!["没有可用的 index，无法浏览。"@]);
            Ok(Listing { head, rows: none })
        },
        Some(index) => match index.find_directory(path) {
            None => Err(cat2("目录不存在: ", path)),
            Some(d) => {
                head.line(
                    cat4(
                        display_dir_name(d, path).as_str(),
                        "  (gen ",
                        decimal(index.generation).as_str(),
                        ")",
                    ),
                );
                let rows = rows_for(&d.entries);
                proof {
                    crate::ltfs::index::lemma_entries(*d);
                }
                assert(head@ =~= seq![
                    heading(d.name@, path@) + "  (gen "@ + decimal_spec(index.generation as nat)
                        + ")"@,
                ]);
                Ok(Listing { head, rows })
            },
        },
    }
}

/// The line of a row, with the size of a file as it is shown.
pub open spec fn row_line(row: RowModel, size: Seq<char>) -> Seq<char> {
    match row {
        RowModel::Directory(name) => "  d   "@ + left_padded(""@, 10, ' ') + "  "@ + name + "/"@,
        RowModel::Symlink(name, target) => "  l   "@ + left_padded("-"@, 10, ' ') + "  "@ + name
            + " -> "@ + target,
        RowModel::File(name, _) => "  -   "@ + left_padded(size, 10, ' ') + "  "@ + name,
    }
}

/// The line of a row, with the size of a file as it is shown.
pub fn line_of_row(row: &ListingRow, size: &str) -> (text: String)
    ensures
        text@ == row_line(row@, size@),
{
    match row {
        ListingRow::Directory { name } => cat5(
            "  d   ",
            pad_left("", 10, ' ').as_str(),
            "  ",
            name.as_str(),
            "/",
        ),
        ListingRow::Symlink { name, target } => cat6(
            "  l   ",
            pad_left("-", 10, ' ').as_str(),
            "  ",
            name.as_str(),
            " -> ",
            target.as_str(),
        ),
        ListingRow::File { name, .. } => cat4(
            "  -   ",
            pad_left(size, 10, ' ').as_str(),
            "  ",
            name.as_str(),
        ),
    }
}

// ---------------------------------------------------------------------------
// A write
// ---------------------------------------------------------------------------

/// The figures of a telemetry sample as they are shown.
pub struct SampleTexts {
    pub elapsed: String,
    pub speed: String,
    pub worst: String,
}

/// The line of a telemetry sample.
pub open spec fn sample_line(sample: ChannelTelemetrySample, texts: SampleTexts) -> Seq<char> {
    ("  遥测 t="@ + texts.elapsed@ + "s p"@ + decimal_spec(sample.partition as nat) + "b"@
        + decimal_spec(sample.logical_block as nat)) + (" speed="@ + texts.speed@ + " MiB/s worst="@
        + (if sample.worst_rate is Some {
        texts.worst@
    } else {
        "n/a"@
    }))
}

fn line_of_sample(sample: &ChannelTelemetrySample, texts: &SampleTexts) -> (text: String)
    ensures
        text@ == sample_line(*sample, *texts),
{
    let first = cat6(
        "  遥测 t=",
        texts.elapsed.as_str(),
        "s p",
        decimal(sample.partition as u64).as_str(),
        "b",
        decimal(sample.logical_block).as_str(),
    );
    let second = cat4(
        " speed=",
        texts.speed.as_str(),
        " MiB/s worst=",
        if sample.worst_rate.is_some() {
            texts.worst.as_str()
        } else {
            "n/a"
        },
    );
    cat2(first.as_str(), second.as_str())
}

/// Tells of a write while it goes on.
pub struct WriteWatch {
    /// How many files were reported as completed.
    pub last_completed: usize,
}

/// An event that tells of a file completed since the last one.
pub open spec fn tells_completed(last: usize, event: WriteEvent) -> bool {
    event.phase is WritingData && event.telemetry is None && event.files_completed > last
}

/// What is told of an event of a write.
pub open spec fn event_lines(last: usize, event: WriteEvent, texts: SampleTexts) -> Seq<Seq<char>> {
    match event.phase {
        WritePhase::Preparing => seq![
            "准备写入 "@ + decimal_spec(event.files_total as nat) + " 个文件 / "@
                + decimal_spec(event.bytes_total as nat) + " 字节"@,
        ],
        WritePhase::WritingData => match event.telemetry {
            Some(sample) => seq![sample_line(sample, texts)],
            None => if event.files_completed > last {
                seq![
                    ("  已完成 "@ + decimal_spec(event.files_completed as nat) + "/"@
                        + decimal_spec(event.files_total as nat) + "（"@) + (decimal_spec(
                        event.bytes_written as nat,
                    ) + "/"@ + decimal_spec(event.bytes_total as nat) + " 字节）"@),
                ]
            } else {
                match event.current_file {
                    Some(path) => seq![
                        "写入文件 "@ + decimal_spec((event.files_completed + 1) as nat) + "/"@
                            + decimal_spec(event.files_total as nat) + ": "@ + path@,
                    ],
                    None => no_line(),
                }
            },
        },
        WritePhase::FinalizingDataIndex => seq!["正在完成 data 分区 index……"@],
        WritePhase::SyncingIndexPartition => seq!["正在同步 index 分区……"@],
        WritePhase::UpdatingCoherency => seq![
            "正在更新 MAM Volume Coherency Information……"@,
        ],
        WritePhase::Verifying => value_line(
            "正在从磁带回读校验: "@,
            opt_view(event.current_file),
        ),
        WritePhase::Failed => match event.failure {
            Some(f) => seq![
                ("写入失败：phase="@ + phase_name(f.phase) + " commit="@ + commit_name(
                    f.commit_state,
                )) + (" safe_to_retry="@ + bool_text(f.safe_to_retry) + " requires_diagnosis="@
                    + bool_text(f.requires_diagnosis)),
            ] + (if f.cancelled {
                seq!["结果类型：用户取消"@]
            } else {
                no_line()
            }),
            None => no_line(),
        },
        WritePhase::Completed => seq!["写入会话已安全完成。"@],
    }
}

fn true_or_false(value: bool) -> (text: &'static str)
    ensures
        text@ == bool_text(value),
{
    if value {
        "true"
    } else {
        "false"
    }
}

impl WriteWatch {
    /// Tells of an event.
    pub fn observe(&mut self, event: &WriteEvent, texts: &SampleTexts) -> (report: Report)
        requires
            event.files_completed < usize::MAX,
        ensures
            report@ == event_lines(old(self).last_completed, *event, *texts),
            final(self).last_completed == (if tells_completed(old(self).last_completed, *event) {
                event.files_completed
            } else {
                old(self).last_completed
            }),
    {
        let mut report = Report::new();
        match event.phase {
            WritePhase::Preparing => {
                report.line(
                    cat5(
                        "准备写入 ",
                        decimal(event.files_total as u64).as_str(),
                        " 个文件 / ",
                        decimal(event.bytes_total).as_str(),
                        " 字节",
                    ),
                );
            },
            WritePhase::WritingData => match &event.telemetry {
                Some(sample) => {
                    report.line(line_of_sample(sample, texts));
                },
                None => if event.files_completed > self.last_completed {
                    let first = cat5(
                        "  已完成 ",
                        decimal(event.files_completed as u64).as_str(),
                        "/",
                        decimal(event.files_total as u64).as_str(),
                        "（",
                    );
                    let second = cat4(
                        decimal(event.bytes_written).as_str(),
                        "/",
                        decimal(event.bytes_total).as_str(),
                        " 字节）",
                    );
                    report.line(cat2(first.as_str(), second.as_str()));
                    self.last_completed = event.files_completed;
                } else {
                    match &event.current_file {
                        Some(path) => {
                            report.line(
                                cat6(
                                    "写入文件 ",
                                    decimal((event.files_completed + 1) as u64).as_str(),
                                    "/",
                                    decimal(event.files_total as u64).as_str(),
                                    ": ",
                                    path.as_str(),
                                ),
                            );
                        },
                        None => {},
                    }
                },
            },
            WritePhase::FinalizingDataIndex => {
                report.line("正在完成 data 分区 index……".to_owned());
            },
            WritePhase::SyncingIndexPartition => {
                report.line("正在同步 index 分区……".to_owned());
            },
            WritePhase::UpdatingCoherency => {
                report.line("正在更新 MAM Volume Coherency Information……".to_owned());
            },
            WritePhase::Verifying => {
                add_value(&mut report, "正在从磁带回读校验: ", &event.current_file);
            },
            WritePhase::Failed => match &event.failure {
                Some(f) => {
                    let first = cat4(
                        "写入失败：phase=",
                        f.phase.name(),
                        " commit=",
                        f.commit_state.name(),
                    );
                    let second = cat4(
                        " safe_to_retry=",
                        true_or_false(f.safe_to_retry),
                        " requires_diagnosis=",
                        true_or_false(f.requires_diagnosis),
                    );
                    report.line(cat2(first.as_str(), second.as_str()));
                    if f.cancelled {
                        report.line("结果类型：用户取消".to_owned());
                    }
                },
                None => {},
            },
            WritePhase::Completed => {
                report.line("写入会话已安全完成。".to_owned());
            },
        }
        assert(report@ =~= event_lines(old(self).last_completed, *event, *texts));
        report
    }
}

/// The figures of a completed write as they are shown.
pub struct ResultTexts {
    /// One for each channel rate.
    pub rates: Vec<String>,
    pub worst: String,
    pub session_worst: String,
    pub session_elapsed: String,
}

/// A line on the output.
pub open spec fn out(text: Seq<char>) -> Seq<LineModel> {
    seq![LineModel::Out(text)]
}

/// The line of a channel.
pub open spec fn channel_line(rate: ChannelRate, text: Seq<char>) -> LineModel {
    LineModel::Out(
        "  Channel "@ + decimal_spec(rate.channel as nat) + ": "@ + (
        if rate.log10_bit_error_rate is Some {
            text
        } else {
            "n/a"@
        }),
    )
}

/// The lines of the channels.
pub open spec fn channel_lines(rates: Seq<ChannelRate>, texts: Seq<String>) -> Seq<LineModel> {
    Seq::new(rates.len(), |i: int| channel_line(rates[i], texts[i]@))
}

/// The hashes of the files.
pub open spec fn hash_lines(hashes: Seq<FileHash>) -> Seq<LineModel> {
    hashes.map_values(|h: FileHash| LineModel::Out("SHA-256 "@ + h.sha256@ + "  "@ + h.path@))
}

/// What was written.
pub open spec fn written_lines(tape_path: Seq<char>, r: WriteResult) -> Seq<LineModel> {
    out(
        ("已写入 "@ + decimal_spec(r.files as nat) + " 个文件 / "@ + decimal_spec(
            r.directories as nat,
        ) + " 个目录 / "@ + decimal_spec(r.bytes as nat) + " 字节 -> "@) + (tape_path
            + " (highest uid "@ + decimal_spec(r.file_uid as nat) + ", index gen "@ + decimal_spec(
            r.generation as nat,
        ) + ")"@),
    ) + hash_lines(r.hashes@) + (if r.verification is ReadBackSha256 {
        out("写后回读校验通过。"@)
    } else {
        Seq::<LineModel>::empty()
    })
}

/// How the drive fared.
pub open spec fn fared_lines(r: WriteResult, texts: ResultTexts) -> Seq<LineModel> {
    let d = r.health_delta;
    out(
        ("本次设备计数变化: corrected-write="@ + counter_words(d.corrected_write_errors)
            + " hard-write="@ + counter_words(d.hard_write_errors)) + (" corrected-read="@
            + counter_words(d.corrected_read_errors) + " hard-read="@ + counter_words(
            d.hard_read_errors,
        )),
    ) + (if d.write_channel_rates@.len() == 0 {
        out("LTFSCopyGUI 通道错误率: n/a（本次没有可比较的通道样本）"@)
    } else {
        channel_lines(d.write_channel_rates@, texts.rates@) + out(
            "LTFSCopyGUI 最大通道错误率指数: "@ + (if d.worst_write_channel_rate is Some {
                texts.worst@
            } else {
                "n/a"@
            }),
        )
    }) + (if d.active_tape_alerts@.len() > 0 {
        seq![
            LineModel::Fault(
                "警告: 写入完成时存在 TapeAlert flags: "@ + alert_items(
                    d.active_tape_alerts@,
                ),
            ),
        ]
    } else {
        Seq::<LineModel>::empty()
    })
}

/// What the telemetry brought.
pub open spec fn telemetry_lines(r: WriteResult, texts: ResultTexts) -> Seq<LineModel> {
    errors_of("遥测警告: "@, r.health_before.warnings@) + errors_of(
        "遥测警告: "@,
        r.health_after.warnings@,
    ) + errors_of("周期遥测警告: "@, r.telemetry_warnings@) + out(
        "通道错误率历史: "@ + decimal_spec(r.telemetry_history@.len()) + " samples（容量 "@
            + decimal_spec(CHANNEL_HISTORY_CAPACITY as nat) + "，默认显示 "@ + decimal_spec(
            CHANNEL_DEFAULT_VISIBLE_SAMPLES as nat,
        ) + "）"@,
    ) + (match r.session_worst_channel_rate {
        Some(w) => out(
            ("会话最差: "@ + texts.session_worst@ + " channel "@ + decimal_spec(w.channel as nat)
                + " @ "@ + texts.session_elapsed@ + "s p"@) + (decimal_spec(w.partition as nat)
                + "b"@ + decimal_spec(w.logical_block as nat) + " ("@ + w.timestamp@ + ")"@),
        ),
        None => Seq::<LineModel>::empty(),
    })
}

/// What is told of a completed write.
pub open spec fn result_report(tape_path: Seq<char>, r: WriteResult, texts: ResultTexts) -> Seq<
    LineModel,
> {
    written_lines(tape_path, r) + fared_lines(r, texts) + telemetry_lines(r, texts)
}

fn add_hashes(printout: &mut Printout, hashes: &Vec<FileHash>)
    ensures
        final(printout)@ == old(printout)@ + hash_lines(hashes@),
{
    let ghost start = printout@;
    let ghost wanted = hash_lines(hashes@);
    let mut i: usize = 0;
    assert(start + wanted.subrange(0, 0) =~= start);
    while i < hashes.len()
        invariant
            i <= hashes@.len(),
            wanted == hash_lines(hashes@),
            printout@ == start + wanted.subrange(0, i as int),
        decreases hashes@.len() - i,
    {
        printout.out(
            cat4("SHA-256 ", hashes[i].sha256.as_str(), "  ", hashes[i].path.as_str()),
        );
        i = i + 1;
        assert(printout@ =~= start + wanted.subrange(0, i as int));
    }
    assert(wanted.subrange(0, i as int) =~= wanted);
}

fn add_written(printout: &mut Printout, tape_path: &str, r: &WriteResult)
    ensures
        final(printout)@ == old(printout)@ + written_lines(tape_path@, *r),
{
    let first = cat7(
        "已写入 ",
        decimal(r.files as u64).as_str(),
        " 个文件 / ",
        decimal(r.directories as u64).as_str(),
        " 个目录 / ",
        decimal(r.bytes).as_str(),
        " 字节 -> ",
    );
    let second = cat6(
        tape_path,
        " (highest uid ",
        decimal(r.file_uid).as_str(),
        ", index gen ",
        decimal(r.generation).as_str(),
        ")",
    );
    printout.out(cat2(first.as_str(), second.as_str()));
    add_hashes(printout, &r.hashes);
    if r.verification == WriteVerification::ReadBackSha256 {
        printout.out("写后回读校验通过。".to_owned());
    }
    assert(printout@ =~= old(printout)@ + written_lines(tape_path@, *r));
}

fn add_channels(printout: &mut Printout, rates: &Vec<ChannelRate>, texts: &Vec<String>)
    requires
        texts@.len() == rates@.len(),
    ensures
        final(printout)@ == old(printout)@ + channel_lines(rates@, texts@),
{
    let ghost start = printout@;
    let ghost wanted = channel_lines(rates@, texts@);
    let mut i: usize = 0;
    assert(start + wanted.subrange(0, 0) =~= start);
    while i < rates.len()
        invariant
            i <= rates@.len(),
            texts@.len() == rates@.len(),
            wanted == channel_lines(rates@, texts@),
            printout@ == start + wanted.subrange(0, i as int),
        decreases rates@.len() - i,
    {
        printout.out(
            cat4(
                "  Channel ",
                decimal(rates[i].channel as u64).as_str(),
                ": ",
                if rates[i].log10_bit_error_rate.is_some() {
                    texts[i].as_str()
                } else {
                    "n/a"
                },
            ),
        );
        assert(wanted[i as int] == channel_line(rates@[i as int], texts@[i as int]@));
        i = i + 1;
        assert(printout@ =~= start + wanted.subrange(0, i as int));
    }
    assert(wanted.subrange(0, i as int) =~= wanted);
}

fn add_fared(printout: &mut Printout, r: &WriteResult, texts: &ResultTexts)
    requires
        texts.rates@.len() == r.health_delta.write_channel_rates@.len(),
    ensures
        final(printout)@ == old(printout)@ + fared_lines(*r, *texts),
{
    let d = &r.health_delta;
    let first = cat4(
        "本次设备计数变化: corrected-write=",
        display_counter(d.corrected_write_errors).as_str(),
        " hard-write=",
        display_counter(d.hard_write_errors).as_str(),
    );
    let second = cat4(
        " corrected-read=",
        display_counter(d.corrected_read_errors).as_str(),
        " hard-read=",
        display_counter(d.hard_read_errors).as_str(),
    );
    printout.out(cat2(first.as_str(), second.as_str()));
    if d.write_channel_rates.len() == 0 {
        printout.out(
            "LTFSCopyGUI 通道错误率: n/a（本次没有可比较的通道样本）".to_owned(),
        );
    } else {
        add_channels(printout, &d.write_channel_rates, &texts.rates);
        printout.out(
            cat2(
                "LTFSCopyGUI 最大通道错误率指数: ",
                if d.worst_write_channel_rate.is_some() {
                    texts.worst.as_str()
                } else {
                    "n/a"
                },
            ),
        );
    }
    if d.active_tape_alerts.len() > 0 {
        printout.err(
            cat2(
                "警告: 写入完成时存在 TapeAlert flags: ",
                alert_list(&d.active_tape_alerts).as_str(),
            ),
        );
    }
    assert(printout@ =~= old(printout)@ + fared_lines(*r, *texts));
}

fn add_telemetry(printout: &mut Printout, r: &WriteResult, texts: &ResultTexts)
    ensures
        final(printout)@ == old(printout)@ + telemetry_lines(*r, *texts),
{
    add_errors(printout, "遥测警告: ", &r.health_before.warnings);
    add_errors(printout, "遥测警告: ", &r.health_after.warnings);
    add_errors(printout, "周期遥测警告: ", &r.telemetry_warnings);
    printout.out(
        cat7(
            "通道错误率历史: ",
            decimal(r.telemetry_history.len() as u64).as_str(),
            " samples（容量 ",
            decimal(CHANNEL_HISTORY_CAPACITY as u64).as_str(),
            "，默认显示 ",
            decimal(CHANNEL_DEFAULT_VISIBLE_SAMPLES as u64).as_str(),
            "）",
        ),
    );
    match &r.session_worst_channel_rate {
        Some(w) => {
            let first = cat7(
                "会话最差: ",
                texts.session_worst.as_str(),
                " channel ",
                decimal(w.channel as u64).as_str(),
                " @ ",
                texts.session_elapsed.as_str(),
                "s p",
            );
            let second = cat6(
                decimal(w.partition as u64).as_str(),
                "b",
                decimal(w.logical_block).as_str(),
                " (",
                w.timestamp.as_str(),
                ")",
            );
            printout.out(cat2(first.as_str(), second.as_str()));
        },
        None => {},
    }
    assert(printout@ =~= old(printout)@ + telemetry_lines(*r, *texts));
}

/// What is told of a completed write.
pub fn describe_result(tape_path: &str, r: &WriteResult, texts: &ResultTexts) -> (printout: Printout)
    requires
        texts.rates@.len() == r.health_delta.write_channel_rates@.len(),
    ensures
        printout@ == result_report(tape_path@, *r, *texts),
{
    let mut printout = Printout::new();
    add_written(&mut printout, tape_path, r);
    add_fared(&mut printout, r, texts);
    add_telemetry(&mut printout, r, texts);
    assert(printout@ =~= result_report(tape_path@, *r, *texts));
    printout
}

// ---------------------------------------------------------------------------
// Formats and erases
// ---------------------------------------------------------------------------

/// The line of an event of a format.
pub fn line_of_format(event: &FormatEvent) -> (text: String)
    ensures
        text@ == "["@ + format_phase_text(event.phase) + "] "@ + event.message@,
{
    cat4("[", format_phase_name(event.phase), "] ", event.message.as_str())
}

/// The line of an event of an erase, with the progress as it is shown.
pub fn line_of_erase(event: &EraseEvent, percent: &str) -> (text: String)
    ensures
        text@ == "["@ + erase_phase_text(event.phase) + "] "@ + event.message@ + (
        if event.progress is Some {
            "（"@ + percent@ + "%）"@
        } else {
            ""@
        }),
{
    let head = cat4("[", erase_phase_name(event.phase), "] ", event.message.as_str());
    if event.progress.is_some() {
        cat2(head.as_str(), cat3("（", percent, "%）").as_str())
    } else {
        cat2(head.as_str(), "")
    }
}

/// What is told before a cartridge is formatted.
pub fn format_warning(drive: &TapeDrive, options: &FormatOptions) -> (text: String)
    ensures
        text@ == "警告：正在销毁并重新格式化 "@ + drive.sg_path@
            + " 中的磁带；Barcode="@ + options.barcode@ + "，Volume Name="@
            + options.volume_name@,
{
    cat6(
        "警告：正在销毁并重新格式化 ",
        drive.sg_path.as_str(),
        " 中的磁带；Barcode=",
        options.barcode.as_str(),
        "，Volume Name=",
        options.volume_name.as_str(),
    )
}

/// What is told of a cartridge that was formatted.
pub fn format_outcome(r: &FormatResult) -> (text: String)
    ensures
        text@ == "LTFS format 完成: Barcode="@ + r.barcode@ + " Volume Name="@ + r.volume_name@ + (
        " UUID="@ + r.volume_uuid@ + " generation="@ + decimal_spec(r.generation as nat)),
{
    cat5(
        "LTFS format 完成: Barcode=",
        r.barcode.as_str(),
        " Volume Name=",
        r.volume_name.as_str(),
        cat4(" UUID=", r.volume_uuid.as_str(), " generation=", decimal(r.generation).as_str()).as_str(),
    )
}

/// What is told before a cartridge is erased.
pub fn erase_warning(drive: &TapeDrive, mode: EraseMode) -> (text: String)
    ensures
        text@ == "警告：正在对 "@ + drive.sg_path@ + " 中的磁带执行 "@ + mode_name(mode)
            + " erase，现有数据将被销毁"@,
{
    cat5(
        "警告：正在对 ",
        drive.sg_path.as_str(),
        " 中的磁带执行 ",
        mode.cli_name(),
        " erase，现有数据将被销毁",
    )
}

/// What is told of a cartridge that was erased.
pub fn erase_outcome(r: &EraseResult) -> (text: String)
    ensures
        text@ == mode_name(r.mode) + " erase 完成，耗时 "@ + decimal_spec(
            r.elapsed_seconds as nat,
        ) + " 秒"@,
{
    cat4(
        r.mode.cli_name(),
        " erase 完成，耗时 ",
        decimal(r.elapsed_seconds).as_str(),
        " 秒",
    )
}

} // verus!
