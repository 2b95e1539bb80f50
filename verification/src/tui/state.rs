//! The state of the interface, and how it starts.
use vstd::prelude::*;
use vstd::string::*;

use crate::app::erase::{EraseEvent, EraseMode, ErasePhase, EraseResult};
use crate::app::format::{FormatEvent, FormatOptions, FormatPhase, FormatResult};
use crate::app::mounts::{BrowserEntry, MountedFilesystem};
use crate::app::drives::DriveHealth;
use crate::app::snapshot::{DeviceSnapshot, MediaLifecycle};
use crate::app::source::{CapacityAssessment, SourcePlan};
use crate::app::telemetry::{empty_frame, ChannelTelemetryFrame};
use crate::device::TapeDrive;
use crate::job::id::JobId;
use crate::job::order::CompletionAction;
use crate::job::state::{active, JobState};
use crate::text::{has_prefix, opt_view, same, split_once, split_once_spec, starts_with, views};

verus! {

/// The least size of a terminal that everything fits in.
pub const MIN_WIDTH: u16 = 100;

pub const MIN_HEIGHT: u16 = 35;

/// A key that was pressed.
#[derive(Debug, Clone, Copy, PartialEq, Eq, Structural)]
pub enum Key {
    Char(char),
    Up,
    Down,
    Enter,
    Esc,
    Backspace,
    Tab,
    Function(u8),
    Other,
}

#[derive(Debug, Clone, Copy, PartialEq, Eq, Structural)]
pub enum Page {
    Overview,
    Ltfs,
    Sequential,
    Health,
    Jobs,
    JobCompletion,
    ErrorDetails,
    WriteSource,
    ReadRestore,
    Format,
    Erase,
}

#[derive(Debug, Clone, Copy, PartialEq, Eq, Structural)]
pub enum FormatView {
    Editing,
    Confirm,
    Running,
    Complete,
}

#[derive(Debug, Clone, Copy, PartialEq, Eq, Structural)]
pub enum FormatField {
    VolumeSerial,
    VolumeName,
}

#[derive(Debug, Clone, Copy, PartialEq, Eq, Structural)]
pub enum EraseView {
    SelectMode,
    Confirm,
    Running,
    Complete,
}

#[derive(Debug, Clone, Copy, PartialEq, Eq, Structural)]
pub enum SourceView {
    Mounts,
    Directory,
    Plan,
    LtfsDestination,
    Confirm,
}

#[derive(Debug, Clone, Copy, PartialEq, Eq, Structural)]
pub enum ReadView {
    TapeBrowser,
    Plan,
    Mounts,
    Destination,
    Confirm,
}

#[derive(Debug, Clone, Copy, PartialEq, Eq, Structural)]
pub enum SequentialMode {
    RawWrite,
    TarWrite,
    RawRead,
    TarRead,
}

impl SequentialMode {
    pub open spec fn writes(self) -> bool {
        self is RawWrite || self is TarWrite
    }

    pub fn is_write(self) -> (yes: bool)
        ensures
            yes == self.writes(),
    {
        match self {
            SequentialMode::RawWrite => true,
            SequentialMode::TarWrite => true,
            SequentialMode::RawRead => false,
            SequentialMode::TarRead => false,
        }
    }

    /// The extension of an image.
    pub fn extension(self) -> (text: &'static str)
        ensures
            text@ == (if self is TarRead {
                "tar"@
            } else {
                "raw"@
            }),
    {
        if self == SequentialMode::TarRead {
            "tar"
        } else {
            "raw"
        }
    }
}

#[derive(Debug, Clone, Copy, PartialEq, Eq, Structural)]
pub enum SequentialView {
    Menu,
    Mounts,
    Directory,
    Filename,
    Confirm,
}

/// An entry of an LTFS directory.
#[derive(Debug, PartialEq, Eq)]
pub struct TapeBrowserEntry {
    pub name: String,
    pub path: String,
    pub directory: bool,
    pub size: u64,
}

/// What is to be read from a volume.
#[derive(Debug, PartialEq, Eq)]
pub struct ReadPlan {
    pub selections: Vec<String>,
    pub files: usize,
    pub directories: usize,
    pub extents: usize,
    pub payload_bytes: u64,
    pub volume_uuid: String,
    pub index_generation: u64,
}

/// What the memory of a cartridge says of what is on it.
#[derive(Debug, Clone, Copy, PartialEq, Eq, Structural)]
pub enum RawMamStatus {
    LtfsDetected,
    NoLtfs,
    Unknown,
}

/// What the memory of a cartridge says, and which format it names.
#[derive(Debug, PartialEq, Eq)]
pub struct RawMamAssessment {
    pub status: RawMamStatus,
    pub application_format: Option<String>,
}

/// Whether a host directory has room for a recovery image.
#[derive(Debug, Clone, Copy, PartialEq, Eq, Structural)]
pub struct RecoverySpaceAssessment {
    pub sufficient: bool,
    pub available_free_bytes: u64,
    pub required_free_bytes: u64,
}

/// Who owns the device: the worker of the interface, or a job.
#[derive(Debug, Clone, Copy, PartialEq, Eq, Structural)]
pub enum WorkerOwnershipState {
    Active,
    Suspending,
    Suspended,
}

impl WorkerOwnershipState {
    pub fn allows_device_access(self) -> (yes: bool)
        ensures
            yes == (self is Active),
    {
        self == WorkerOwnershipState::Active
    }
}

/// How much a snapshot tells.
#[derive(Debug, Clone, Copy, PartialEq, Eq, Structural)]
pub enum SnapshotScope {
    Basic,
    Ltfs,
}

/// What the worker of the device is asked for.
#[derive(Debug, PartialEq, Eq)]
pub enum WorkerCommand {
    Discover,
    Select(usize),
    Refresh,
    ReadLtfs,
    Load,
    LoadUnthreaded,
    Unthread,
    Unload,
    Format(FormatOptions),
    Erase(EraseMode),
    AssessSequential(Option<String>),
    Suspend,
    Resume,
    Stop,
}

/// What the worker of the filesystems is asked for.
#[derive(Debug, PartialEq, Eq)]
pub enum FileCommand {
    ListMounts,
    Browse(String),
    Scan(Vec<String>, Option<u64>),
    Stop,
}

/// What a key makes the program do.
#[derive(Debug, PartialEq, Eq)]
pub enum Effect {
    /// A command for the device.
    Device(WorkerCommand),
    /// A command for the device that the user chose by name.
    Cartridge(WorkerCommand, &'static str),
    File(FileCommand),
    CancelJob(JobId),
    /// The files of the selected paths of the volume are counted.
    PlanRead,
    /// The path of a new image is looked at.
    CheckOutput(String),
    StartWrite,
    StartRead,
    StartSequential,
}

/// What the filesystems told.
#[derive(Debug, PartialEq, Eq)]
pub enum FileEvent {
    Mounts(Vec<MountedFilesystem>),
    Directory(String, Vec<BrowserEntry>),
    Plan(SourcePlan, CapacityAssessment),
    Error(String),
}

/// What the jobs told.
#[derive(Debug, PartialEq, Eq)]
pub enum JobEvent {
    States(Vec<JobState>),
    Error(String),
}

/// What the device told.
#[derive(Debug, PartialEq, Eq)]
pub enum WorkerEvent {
    Busy(&'static str),
    Drives(Vec<TapeDrive>),
    Snapshot(Box<DeviceSnapshot>, ChannelTelemetryFrame, SnapshotScope),
    Telemetry(Box<DriveHealth>, ChannelTelemetryFrame, String),
    TelemetryUnavailable(ChannelTelemetryFrame, String, String),
    FormatProgress(FormatEvent),
    FormatCompleted(FormatResult, Box<DeviceSnapshot>, ChannelTelemetryFrame),
    FormatFailed(String),
    EraseProgress(EraseEvent),
    EraseCompleted(EraseResult, Box<DeviceSnapshot>, ChannelTelemetryFrame),
    EraseFailed(String, Box<DeviceSnapshot>, ChannelTelemetryFrame),
    SequentialAssessment(RawMamAssessment, Option<RecoverySpaceAssessment>),
    Status(String),
    Error(String),
}

/// What is told: what is being waited for, how things stand, and what went wrong.
#[derive(Debug, PartialEq, Eq)]
pub struct Note {
    pub busy: Option<&'static str>,
    pub status: String,
    pub last_error: Option<String>,
}

/// The drives, and the one that is shown.
#[derive(Debug, PartialEq, Eq)]
pub struct DevicePane {
    pub drives: Vec<TapeDrive>,
    pub drive_index: usize,
    pub selected: bool,
    pub snapshot: Option<DeviceSnapshot>,
    pub ltfs_read: bool,
    pub ltfs_open_pending: bool,
    pub channels: ChannelTelemetryFrame,
}

/// The jobs.
#[derive(Debug, PartialEq, Eq)]
pub struct JobsPane {
    pub list: Vec<JobState>,
    pub index: usize,
    pub cancel_confirm: bool,
}

/// The filesystems of the host, and the directory that is shown.
#[derive(Debug, PartialEq, Eq)]
pub struct FilesPane {
    pub mounts: Vec<MountedFilesystem>,
    pub path: Option<String>,
    pub entries: Vec<BrowserEntry>,
    pub index: usize,
    pub busy: bool,
}

/// How an operation is to be started.
#[derive(Debug, PartialEq, Eq)]
pub struct StartPane {
    pub read_back_verify: bool,
    pub completion_action: CompletionAction,
    pub capacity_acknowledged: bool,
    pub confirm: bool,
}

/// A write that is being prepared.
#[derive(Debug, PartialEq, Eq)]
pub struct WritePane {
    pub view: SourceView,
    pub roots: Vec<String>,
    pub plan: Option<SourcePlan>,
    pub capacity: Option<CapacityAssessment>,
    pub tape_directory: String,
    pub tape_directories: Vec<String>,
    pub tape_target: Option<String>,
}

/// A read that is being prepared.
#[derive(Debug, PartialEq, Eq)]
pub struct ReadPane {
    pub view: ReadView,
    pub directory: String,
    pub entries: Vec<TapeBrowserEntry>,
    pub selected: Vec<String>,
    pub plan: Option<ReadPlan>,
    pub destination: Option<String>,
}

/// A format.
#[derive(Debug, PartialEq, Eq)]
pub struct FormatPane {
    pub view: FormatView,
    pub field: FormatField,
    pub volume_serial: String,
    pub volume_name: String,
    pub media_id: Option<String>,
    pub message: String,
    pub result: Option<FormatResult>,
}

/// An erase.
#[derive(Debug, PartialEq, Eq)]
pub struct ErasePane {
    pub view: EraseView,
    pub mode: EraseMode,
    pub message: String,
    pub progress: Option<u16>,
    pub result: Option<EraseResult>,
}

/// Work on the tape as a sequence of records.
#[derive(Debug, PartialEq, Eq)]
pub struct SequentialPane {
    pub view: SequentialView,
    pub mode: Option<SequentialMode>,
    pub path: Option<String>,
    pub filename: String,
    pub overwrite_ack: bool,
    pub mam: Option<RawMamAssessment>,
    pub space: Option<RecoverySpaceAssessment>,
}

/// Everything that the interface knows.
#[derive(Debug, PartialEq, Eq)]
pub struct UiState {
    pub page: Page,
    pub quit: bool,
    pub note: Note,
    pub device: DevicePane,
    pub jobs: JobsPane,
    pub files: FilesPane,
    pub start: StartPane,
    pub write: WritePane,
    pub read: ReadPane,
    pub format: FormatPane,
    pub erase: ErasePane,
    pub sequential: SequentialPane,
}

/// The interface before anything has happened.
pub open spec fn at_start(s: UiState) -> bool {
    &&& s.page is Overview
    &&& !s.quit
    &&& s.note.busy is Some && s.note.busy->0@ == "Discovering tape drives"@
    &&& s.note.status@ == "Starting Milestone 12 TUI"@
    &&& s.note.last_error is None
    &&& s.device.drives@.len() == 0
    &&& s.device.drive_index == 0
    &&& !s.device.selected
    &&& s.device.snapshot is None
    &&& !s.device.ltfs_read
    &&& !s.device.ltfs_open_pending
    &&& s.device.channels@ == empty_frame()
    &&& s.jobs.list@.len() == 0
    &&& s.jobs.index == 0
    &&& !s.jobs.cancel_confirm
    &&& s.files.mounts@.len() == 0
    &&& s.files.path is None
    &&& s.files.entries@.len() == 0
    &&& s.files.index == 0
    &&& !s.files.busy
    &&& !s.start.read_back_verify
    &&& s.start.completion_action is KeepLoaded
    &&& !s.start.capacity_acknowledged
    &&& !s.start.confirm
    &&& s.write.view is Mounts
    &&& s.write.roots@.len() == 0
    &&& s.write.plan is None
    &&& s.write.capacity is None
    &&& s.write.tape_directory@ == "/"@
    &&& s.write.tape_directories@.len() == 0
    &&& s.write.tape_target is None
    &&& s.read.view is TapeBrowser
    &&& s.read.directory@ == "/"@
    &&& s.read.entries@.len() == 0
    &&& s.read.selected@.len() == 0
    &&& s.read.plan is None
    &&& s.read.destination is None
    &&& s.format.view is Editing
    &&& s.format.field is VolumeSerial
    &&& s.format.volume_serial@.len() == 0
    &&& s.format.volume_name@.len() == 0
    &&& s.format.media_id is None
    &&& s.format.message@.len() == 0
    &&& s.format.result is None
    &&& s.erase.view is SelectMode
    &&& s.erase.mode is Short
    &&& s.erase.message@.len() == 0
    &&& s.erase.progress is None
    &&& s.erase.result is None
    &&& s.sequential.view is Menu
    &&& s.sequential.mode is None
    &&& s.sequential.path is None
    &&& s.sequential.filename@.len() == 0
    &&& !s.sequential.overwrite_ack
    &&& s.sequential.mam is None
    &&& s.sequential.space is None
}

impl Default for UiState {
    fn default() -> (s: UiState)
        ensures
            at_start(s),
    {
        UiState {
            page: Page::Overview,
            quit: false,
            note: Note {
                busy: Some("Discovering tape drives"),
                status: "Starting Milestone 12 TUI".to_owned(),
                last_error: None,
            },
            device: DevicePane {
                drives: Vec::new(),
                drive_index: 0,
                selected: false,
                snapshot: None,
                ltfs_read: false,
                ltfs_open_pending: false,
                channels: ChannelTelemetryFrame::default(),
            },
            jobs: JobsPane {
                list: Vec::new(),
                index: 0,
                cancel_confirm: false,
            },
            files: FilesPane {
                mounts: Vec::new(),
                path: None,
                entries: Vec::new(),
                index: 0,
                busy: false,
            },
            start: StartPane {
                read_back_verify: false,
                completion_action: CompletionAction::KeepLoaded,
                capacity_acknowledged: false,
                confirm: false,
            },
            write: WritePane {
                view: SourceView::Mounts,
                roots: Vec::new(),
                plan: None,
                capacity: None,
                tape_directory: "/".to_owned(),
                tape_directories: Vec::new(),
                tape_target: None,
            },
            read: ReadPane {
                view: ReadView::TapeBrowser,
                directory: "/".to_owned(),
                entries: Vec::new(),
                selected: Vec::new(),
                plan: None,
                destination: None,
            },
            format: FormatPane {
                view: FormatView::Editing,
                field: FormatField::VolumeSerial,
                volume_serial: String::new(),
                volume_name: String::new(),
                media_id: None,
                message: String::new(),
                result: None,
            },
            erase: ErasePane {
                view: EraseView::SelectMode,
                mode: EraseMode::Short,
                message: String::new(),
                progress: None,
                result: None,
            },
            sequential: SequentialPane {
                view: SequentialView::Menu,
                mode: None,
                path: None,
                filename: String::new(),
                overwrite_ack: false,
                mam: None,
                space: None,
            },
        }
    }
}

// ---------------------------------------------------------------------------
// Words
// ---------------------------------------------------------------------------

/// Where a cartridge is, in words.
pub open spec fn lifecycle_text(state: MediaLifecycle) -> Seq<char> {
    match state {
        MediaLifecycle::NoMediaDetected => "No media detected"@,
        MediaLifecycle::PresentUnthreaded => "Present / Unthreaded"@,
        MediaLifecycle::LoadedThreaded => "Loaded / Threaded"@,
        MediaLifecycle::Transitioning => "Transitioning / Not ready"@,
        MediaLifecycle::Unknown => "Unknown (query failed)"@,
    }
}

/// Where a cartridge is, in words.
pub fn lifecycle_label(state: MediaLifecycle) -> (text: &'static str)
    ensures
        text@ == lifecycle_text(state),
{
    match state {
        MediaLifecycle::NoMediaDetected => "No media detected",
        MediaLifecycle::PresentUnthreaded => "Present / Unthreaded",
        MediaLifecycle::LoadedThreaded => "Loaded / Threaded",
        MediaLifecycle::Transitioning => "Transitioning / Not ready",
        MediaLifecycle::Unknown => "Unknown (query failed)",
    }
}

/// The name of a phase of a format.
pub open spec fn format_phase_text(phase: FormatPhase) -> Seq<char> {
    match phase {
        FormatPhase::Preparing => "Preparing"@,
        FormatPhase::Partitioning => "Partitioning"@,
        FormatPhase::WritingMam => "WritingMam"@,
        FormatPhase::WritingDataPartition => "WritingDataPartition"@,
        FormatPhase::WritingIndexPartition => "WritingIndexPartition"@,
        FormatPhase::WritingCoherency => "WritingCoherency"@,
        FormatPhase::Completed => "Completed"@,
    }
}

/// The name of a phase of a format.
pub fn format_phase_name(phase: FormatPhase) -> (text: &'static str)
    ensures
        text@ == format_phase_text(phase),
{
    match phase {
        FormatPhase::Preparing => "Preparing",
        FormatPhase::Partitioning => "Partitioning",
        FormatPhase::WritingMam => "WritingMam",
        FormatPhase::WritingDataPartition => "WritingDataPartition",
        FormatPhase::WritingIndexPartition => "WritingIndexPartition",
        FormatPhase::WritingCoherency => "WritingCoherency",
        FormatPhase::Completed => "Completed",
    }
}

/// The name of a phase of an erase.
pub open spec fn erase_phase_text(phase: ErasePhase) -> Seq<char> {
    match phase {
        ErasePhase::Preparing => "Preparing"@,
        ErasePhase::CreatingMinimumPartition => "CreatingMinimumPartition"@,
        ErasePhase::Rethreading => "Rethreading"@,
        ErasePhase::Erasing => "Erasing"@,
        ErasePhase::RestoringUnpartitioned => "RestoringUnpartitioned"@,
        ErasePhase::Completed => "Completed"@,
    }
}

/// The name of a phase of an erase.
pub fn erase_phase_name(phase: ErasePhase) -> (text: &'static str)
    ensures
        text@ == erase_phase_text(phase),
{
    match phase {
        ErasePhase::Preparing => "Preparing",
        ErasePhase::CreatingMinimumPartition => "CreatingMinimumPartition",
        ErasePhase::Rethreading => "Rethreading",
        ErasePhase::Erasing => "Erasing",
        ErasePhase::RestoringUnpartitioned => "RestoringUnpartitioned",
        ErasePhase::Completed => "Completed",
    }
}

/// How many bytes a character takes in UTF-8.
pub open spec fn char_width(c: char) -> nat {
    if (c as u32) < 0x80 {
        1
    } else if (c as u32) < 0x800 {
        2
    } else if (c as u32) < 0x10000 {
        3
    } else {
        4
    }
}

/// How many characters make up the first `n` bytes of a text, where they end with one.
pub open spec fn chars_in_bytes(text: Seq<char>, n: nat) -> Option<nat>
    decreases text.len(),
{
    if n == 0 {
        Some(0)
    } else if text.len() == 0 || char_width(text[0]) > n {
        None
    } else {
        match chars_in_bytes(text.drop_first(), (n - char_width(text[0])) as nat) {
            Some(k) => Some(k + 1),
            None => None,
        }
    }
}

/// The time of day in a timestamp, to the second; the timestamp where it has none.
pub open spec fn clock_text(timestamp: Seq<char>) -> Seq<char> {
    match split_once_spec(timestamp, 'T') {
        Some((_, time)) => match chars_in_bytes(time, 8) {
            Some(k) => time.subrange(0, k as int),
            None => timestamp,
        },
        None => timestamp,
    }
}

fn first_chars(text: &str, n: u8) -> (count: Option<usize>)
    ensures
        match count {
            Some(k) => k <= text@.len() && chars_in_bytes(text@, n as nat) == Some(k as nat),
            None => chars_in_bytes(text@, n as nat) is None,
        },
{
    let len: usize = text.unicode_len();
    let mut i: usize = 0;
    let mut left: u8 = n;
    assert(text@.subrange(0, text@.len() as int) =~= text@);
    while left > 0
        invariant
            i <= len,
            len == text@.len(),
            chars_in_bytes(text@, n as nat) == (match chars_in_bytes(
                text@.subrange(i as int, text@.len() as int),
                left as nat,
            ) {
                Some(k) => Some((k + i) as nat),
                None => None,
            }),
        decreases left,
    {
        let ghost rest = text@.subrange(i as int, text@.len() as int);
        if i >= len {
            return None;
        }
        let c = text.get_char(i);
        assert(rest[0] == c);
        assert(rest.drop_first() =~= text@.subrange(i + 1, text@.len() as int));
        let code: u32 = c as u32;
        let width: u8 = if code < 0x80 {
            1
        } else if code < 0x800 {
            2
        } else if code < 0x10000 {
            3
        } else {
            4
        };
        assert(width == char_width(c));
        if width > left {
            return None;
        }
        left = left - width;
        i = i + 1;
    }
    Some(i)
}

/// The time of day in a timestamp, to the second; the timestamp where it has none.
pub fn display_clock(timestamp: &str) -> (text: String)
    ensures
        text@ == clock_text(timestamp@),
{
    match split_once(timestamp, 'T') {
        Some((_, time)) => match first_chars(time.as_str(), 8) {
            Some(k) => time.as_str().substring_char(0, k).to_owned(),
            None => timestamp.to_owned(),
        },
        None => timestamp.to_owned(),
    }
}

/// The first text of a list with a prefix.
pub open spec fn first_with(list: Seq<Seq<char>>, prefix: Seq<char>) -> Option<Seq<char>>
    decreases list.len(),
{
    if list.len() == 0 {
        None
    } else if has_prefix(list[0], prefix) {
        Some(list[0])
    } else {
        first_with(list.drop_first(), prefix)
    }
}

fn find_with(list: &Vec<String>, prefix: &str) -> (found: Option<String>)
    ensures
        opt_view(found) == first_with(views(list@), prefix@),
{
    let ghost all = views(list@);
    let mut i: usize = 0;
    assert(all.subrange(0, all.len() as int) =~= all);
    while i < list.len()
        invariant
            i <= list@.len(),
            all == views(list@),
            first_with(all, prefix@) == first_with(
                all.subrange(i as int, all.len() as int),
                prefix@,
            ),
        decreases list@.len() - i,
    {
        let ghost rest = all.subrange(i as int, all.len() as int);
        assert(rest[0] == list@[i as int]@);
        assert(rest.drop_first() =~= all.subrange(i + 1, all.len() as int));
        if starts_with(list[i].as_str(), prefix) {
            return Some(list[i].clone());
        }
        i = i + 1;
    }
    None
}

/// Why a snapshot tells nothing of an LTFS volume.
pub open spec fn probe_error(snapshot: DeviceSnapshot) -> Option<Seq<char>> {
    if !(snapshot.lifecycle is LoadedThreaded) {
        Some("cartridge is not loaded / threaded"@)
    } else {
        match snapshot.volume {
            Some(volume) => if volume.recognized {
                None
            } else {
                Some(
                    match volume.reason {
                        Some(reason) => reason@,
                        None => "no valid LTFS partition label was found"@,
                    },
                )
            },
            None => Some(
                match first_with(views(snapshot.warnings@), "LTFS 查询失败:"@) {
                    Some(warning) => warning,
                    None => "LTFS partition probe returned no volume"@,
                },
            ),
        }
    }
}

/// Why a snapshot tells nothing of an LTFS volume.
pub fn ltfs_probe_error(snapshot: &DeviceSnapshot) -> (error: Option<String>)
    ensures
        opt_view(error) == probe_error(*snapshot),
{
    if snapshot.lifecycle != MediaLifecycle::LoadedThreaded {
        return Some("cartridge is not loaded / threaded".to_owned());
    }
    match &snapshot.volume {
        Some(volume) => if volume.recognized {
            None
        } else {
            Some(
                match &volume.reason {
                    Some(reason) => reason.clone(),
                    None => "no valid LTFS partition label was found".to_owned(),
                },
            )
        },
        None => Some(
            match find_with(&snapshot.warnings, "LTFS 查询失败:") {
                Some(warning) => warning,
                None => "LTFS partition probe returned no volume".to_owned(),
            },
        ),
    }
}

// ---------------------------------------------------------------------------
// Who owns a drive
// ---------------------------------------------------------------------------

/// A job that still works on the drive with a serial number.
pub open spec fn claims(job: JobState, serial: Seq<char>) -> bool {
    active(job.phase) && job.spec.drive_serial@ == serial
}

/// The position of the first job that works on a drive, or their number.
pub open spec fn claiming_position(jobs: Seq<JobState>, serial: Seq<char>) -> int
    decreases jobs.len(),
{
    if jobs.len() == 0 || claims(jobs[0], serial) {
        0
    } else {
        1 + claiming_position(jobs.drop_first(), serial)
    }
}

/// The first job that works on a drive.
pub fn drive_claiming_job(jobs: &Vec<JobState>, serial: &str) -> (position: Option<usize>)
    ensures
        match position {
            Some(k) => k < jobs@.len() && claiming_position(jobs@, serial@) == k && claims(
                jobs@[k as int],
                serial@,
            ),
            None => claiming_position(jobs@, serial@) == jobs@.len() && forall|j: int|
                0 <= j < jobs@.len() ==> !claims(#[trigger] jobs@[j], serial@),
        },
{
    let mut i: usize = 0;
    assert(jobs@.subrange(0, jobs@.len() as int) =~= jobs@);
    while i < jobs.len()
        invariant
            i <= jobs@.len(),
            claiming_position(jobs@, serial@) == i + claiming_position(
                jobs@.subrange(i as int, jobs@.len() as int),
                serial@,
            ),
            forall|j: int| 0 <= j < i ==> !claims(#[trigger] jobs@[j], serial@),
        decreases jobs@.len() - i,
    {
        let ghost rest = jobs@.subrange(i as int, jobs@.len() as int);
        assert(rest[0] == jobs@[i as int]);
        assert(rest.drop_first() =~= jobs@.subrange(i + 1, jobs@.len() as int));
        if jobs[i].phase.is_active() && same(jobs[i].spec.drive_serial.as_str(), serial) {
            return Some(i);
        }
        i = i + 1;
    }
    None
}

/// A job works on the drive that is shown.
pub open spec fn device_claimed(s: UiState) -> bool {
    match s.device.snapshot {
        Some(snapshot) => claiming_position(s.jobs.list@, snapshot.drive.serial@)
            < s.jobs.list@.len(),
        None => false,
    }
}

/// Whether a job works on the drive that is shown.
pub fn selected_device_claimed(s: &UiState) -> (yes: bool)
    ensures
        yes == device_claimed(*s),
{
    match &s.device.snapshot {
        Some(snapshot) => drive_claiming_job(
            &s.jobs.list,
            snapshot.drive.serial.as_str(),
        ).is_some(),
        None => false,
    }
}

/// The lifecycle of the cartridge that is shown.
pub open spec fn shown_lifecycle(s: UiState) -> Option<MediaLifecycle> {
    match s.device.snapshot {
        Some(snapshot) => Some(snapshot.lifecycle),
        None => None,
    }
}

/// Whether the cartridge that is shown is somewhere.
pub fn shows(s: &UiState, lifecycle: MediaLifecycle) -> (yes: bool)
    ensures
        yes == (shown_lifecycle(*s) == Some(lifecycle)),
{
    match &s.device.snapshot {
        Some(snapshot) => snapshot.lifecycle == lifecycle,
        None => false,
    }
}

/// `n` less one, at least zero.
pub open spec fn one_up(n: usize) -> usize {
    if n == 0 {
        0
    } else {
        (n - 1) as usize
    }
}

/// `n` and one more, within a list.
pub open spec fn one_down(n: usize, length: nat) -> usize {
    let last = if length == 0 {
        0
    } else {
        length - 1
    };
    if n + 1 < last {
        (n + 1) as usize
    } else {
        last as usize
    }
}

/// The entry before.
pub fn step_up(n: usize) -> (m: usize)
    ensures
        m == one_up(n),
{
    if n == 0 {
        0
    } else {
        n - 1
    }
}

/// The entry behind, up to the last.
pub fn step_towards(n: usize, last: usize) -> (m: usize)
    ensures
        m == one_down(n, (last + 1) as nat),
{
    if n < last {
        if n + 1 < last {
            n + 1
        } else {
            last
        }
    } else {
        last
    }
}

/// The entry behind, within a list.
pub fn step_down(n: usize, length: usize) -> (m: usize)
    ensures
        m == one_down(n, length as nat),
{
    if length == 0 {
        0
    } else {
        step_towards(n, length - 1)
    }
}

} // verus!
