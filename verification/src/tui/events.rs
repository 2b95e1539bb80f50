//! What events from the device, the filesystems and the jobs change.
use vstd::prelude::*;
use vstd::string::*;

use super::state::{
    clock_text, device_claimed, display_clock, erase_phase_name, erase_phase_text,
    format_phase_name, format_phase_text, ltfs_probe_error, probe_error, selected_device_claimed,
    DevicePane, ErasePane, EraseView, FileEvent, FilesPane, FormatPane, FormatView, JobEvent,
    JobsPane, Note, Page, ReadPane, ReadView, SequentialPane, SequentialView, SnapshotScope,
    SourceView, UiState, WorkerCommand, WorkerEvent, WritePane,
};

use crate::app::mounts::{BrowserEntry, BrowserEntryKind};
use crate::app::snapshot::DeviceSnapshot;
use crate::app::telemetry::ChannelTelemetryFrame;
use crate::text::{cat2, cat3, cat4, decimal, decimal_spec};

verus! {

// ---------------------------------------------------------------------------
// Filesystems
// ---------------------------------------------------------------------------

/// The directories of a list.
pub open spec fn only_directories(list: Seq<BrowserEntry>) -> Seq<BrowserEntry>
    decreases list.len(),
{
    if list.len() == 0 {
        Seq::empty()
    } else {
        let rest = only_directories(list.drop_last());
        if list.last().kind is Directory {
            rest.push(list.last())
        } else {
            rest
        }
    }
}

fn keep_directories(list: Vec<BrowserEntry>) -> (kept: Vec<BrowserEntry>)
    ensures
        kept@ == only_directories(list@),
{
    let mut kept: Vec<BrowserEntry> = Vec::new();
    let mut i: usize = 0;
    assert(list@.subrange(0, 0) =~= Seq::<BrowserEntry>::empty());
    while i < list.len()
        invariant
            i <= list@.len(),
            kept@ == only_directories(list@.subrange(0, i as int)),
        decreases list@.len() - i,
    {
        let ghost next = list@.subrange(0, i + 1);
        assert(next.drop_last() =~= list@.subrange(0, i as int));
        assert(next.last() == list@[i as int]);
        if list[i].kind == BrowserEntryKind::Directory {
            kept.push(list[i].clone());
        }
        i = i + 1;
    }
    assert(list@.subrange(0, i as int) =~= list@);
    kept
}

/// How many directories a list holds.
pub fn count_directories(list: &Vec<BrowserEntry>) -> (count: usize)
    ensures
        count == only_directories(list@).len(),
{
    let mut count: usize = 0;
    let mut i: usize = 0;
    assert(list@.subrange(0, 0) =~= Seq::<BrowserEntry>::empty());
    while i < list.len()
        invariant
            i <= list@.len(),
            count <= i,
            count == only_directories(list@.subrange(0, i as int)).len(),
        decreases list@.len() - i,
    {
        let ghost next = list@.subrange(0, i + 1);
        assert(next.drop_last() =~= list@.subrange(0, i as int));
        assert(next.last() == list@[i as int]);
        if list[i].kind == BrowserEntryKind::Directory {
            count = count + 1;
        }
        i = i + 1;
    }
    assert(list@.subrange(0, i as int) =~= list@);
    count
}

/// The directories of the first `n` entries come first among those of the list.
pub proof fn directories_stay_in_place(list: Seq<BrowserEntry>, n: int)
    requires
        0 <= n <= list.len(),
    ensures
        only_directories(list.subrange(0, n)).is_prefix_of(only_directories(list)),
    decreases list.len(),
{
    if n == list.len() {
        assert(list.subrange(0, n) =~= list);
    } else {
        directories_stay_in_place(list.drop_last(), n);
        assert(list.drop_last().subrange(0, n) =~= list.subrange(0, n));
    }
}

/// The directories of directories are all of them.
pub proof fn directories_are_kept(list: Seq<BrowserEntry>)
    ensures
        only_directories(only_directories(list)) == only_directories(list),
        forall|i: int|
            0 <= i < only_directories(list).len() ==> (#[trigger] only_directories(
                list,
            )[i]).kind is Directory,
    decreases list.len(),
{
    if list.len() > 0 {
        directories_are_kept(list.drop_last());
        let rest = only_directories(list.drop_last());
        if list.last().kind is Directory {
            assert(rest.push(list.last()).drop_last() =~= rest);
        }
    }
}

/// What an event of the filesystems makes of the page for sequential work.
pub open spec fn sequential_file_event(s: UiState, event: FileEvent, t: UiState) -> bool {
    let base = UiState { note: Note { status: t.note.status, ..s.note }, ..s };
    let files = FilesPane { busy: false, ..s.files };
    match event {
        FileEvent::Mounts(mounts) => t == (UiState {
            files: FilesPane { mounts, index: 0, ..files },
            sequential: SequentialPane { view: SequentialView::Mounts, ..s.sequential },
            ..base
        }) && t.note.status@ == "Select a mounted filesystem"@,
        FileEvent::Directory(path, entries) => t == (UiState {
            files: FilesPane { path: Some(path), entries, index: 0, ..files },
            sequential: SequentialPane { view: SequentialView::Directory, ..s.sequential },
            ..base
        }) && t.note.status@ == (if s.sequential.mode is Some && s.sequential.mode->0.writes() {
            "Select one source with Space"@
        } else {
            "Press S to use this directory for the recovery image"@
        }),
        FileEvent::Error(error) => t == (UiState { files, ..base }) && t.note.status == error,
        FileEvent::Plan(_, _) => t == (UiState { files, ..base }) && t.note.status@
            == "Unexpected source scan result"@,
    }
}

/// What an event of the filesystems makes of the page for reading.
pub open spec fn read_file_event(s: UiState, event: FileEvent, t: UiState) -> bool {
    let base = UiState { note: Note { status: t.note.status, ..s.note }, ..s };
    let files = FilesPane { busy: false, ..s.files };
    match event {
        FileEvent::Mounts(mounts) => t == (UiState {
            files: FilesPane { mounts, index: 0, ..files },
            read: ReadPane { view: ReadView::Mounts, ..s.read },
            ..base
        }) && t.note.status@ == "Select the filesystem containing the restore destination"@,
        FileEvent::Directory(path, entries) => t == (UiState {
            files: FilesPane { path: Some(path), entries: t.files.entries, index: 0, ..files },
            read: ReadPane { view: ReadView::Destination, ..s.read },
            ..base
        }) && t.files.entries@ == only_directories(entries@) && t.note.status@
            == "Browse with Enter; press S to select this destination directory"@,
        FileEvent::Error(error) => t == (UiState {
            files,
            note: Note { last_error: Some(error), status: error, ..s.note },
            ..s
        }),
        FileEvent::Plan(_, _) => t == (UiState { files, ..base }) && t.note.status@
            == "Unexpected Write scan result during Read workflow"@,
    }
}

/// What an event of the filesystems makes of the page for writing.
pub open spec fn write_file_event(s: UiState, event: FileEvent, t: UiState) -> bool {
    let base = UiState { note: Note { status: t.note.status, ..s.note }, ..s };
    let files = FilesPane { busy: false, ..s.files };
    match event {
        FileEvent::Mounts(mounts) => t == (UiState {
            files: FilesPane { mounts, index: 0, ..files },
            write: WritePane { view: SourceView::Mounts, ..s.write },
            ..base
        }) && t.note.status@ == "Select a mounted filesystem; network mounts are listed first"@,
        FileEvent::Directory(path, entries) => t == (UiState {
            files: FilesPane { path: Some(path), entries, index: 0, ..files },
            write: WritePane { view: SourceView::Directory, ..s.write },
            ..base
        }) && t.note.status@ == "Space toggles a source; S scans all selected sources"@,
        FileEvent::Plan(plan, capacity) => t == (UiState {
            files,
            write: WritePane {
                plan: Some(plan),
                capacity: Some(capacity),
                view: SourceView::Plan,
                ..s.write
            },
            ..base
        }) && t.note.status@
            == "Source plan frozen; LTFS destination selection is the next step"@,
        FileEvent::Error(error) => t == (UiState {
            files,
            note: Note { last_error: Some(error), status: error, ..s.note },
            ..s
        }),
    }
}

/// What an event of the filesystems changes; the page decides.
pub open spec fn file_event_applied(s: UiState, event: FileEvent, t: UiState) -> bool {
    match s.page {
        Page::Sequential => sequential_file_event(s, event, t),
        Page::ReadRestore => read_file_event(s, event, t),
        _ => write_file_event(s, event, t),
    }
}

fn on_sequential_page(state: &mut UiState, event: FileEvent)
    ensures
        sequential_file_event(*old(state), event, *final(state)),
{
    state.files.busy = false;
    match event {
        FileEvent::Mounts(mounts) => {
            state.files.mounts = mounts;
            state.files.index = 0;
            state.sequential.view = SequentialView::Mounts;
            state.note.status = "Select a mounted filesystem".to_owned();
        },
        FileEvent::Directory(path, entries) => {
            state.files.path = Some(path);
            state.files.entries = entries;
            state.files.index = 0;
            state.sequential.view = SequentialView::Directory;
            let writes = match state.sequential.mode {
                Some(mode) => mode.is_write(),
                None => false,
            };
            state.note.status = if writes {
                "Select one source with Space".to_owned()
            } else {
                "Press S to use this directory for the recovery image".to_owned()
            };
        },
        FileEvent::Error(error) => {
            state.note.status = error;
        },
        FileEvent::Plan(_, _) => {
            state.note.status = "Unexpected source scan result".to_owned();
        },
    }
}

fn on_read_page(state: &mut UiState, event: FileEvent)
    ensures
        read_file_event(*old(state), event, *final(state)),
{
    state.files.busy = false;
    match event {
        FileEvent::Mounts(mounts) => {
            state.files.mounts = mounts;
            state.files.index = 0;
            state.read.view = ReadView::Mounts;
            state.note.status =
            "Select the filesystem containing the restore destination".to_owned();
        },
        FileEvent::Directory(path, entries) => {
            state.files.path = Some(path);
            state.files.entries = keep_directories(entries);
            state.files.index = 0;
            state.read.view = ReadView::Destination;
            state.note.status =
            "Browse with Enter; press S to select this destination directory".to_owned();
        },
        FileEvent::Error(error) => {
            state.note.last_error = Some(error.clone());
            state.note.status = error;
        },
        FileEvent::Plan(_, _) => {
            state.note.status = "Unexpected Write scan result during Read workflow".to_owned();
        },
    }
}

fn on_write_page(state: &mut UiState, event: FileEvent)
    ensures
        write_file_event(*old(state), event, *final(state)),
{
    state.files.busy = false;
    match event {
        FileEvent::Mounts(mounts) => {
            state.files.mounts = mounts;
            state.files.index = 0;
            state.write.view = SourceView::Mounts;
            state.note.status =
            "Select a mounted filesystem; network mounts are listed first".to_owned();
        },
        FileEvent::Directory(path, entries) => {
            state.files.path = Some(path);
            state.files.entries = entries;
            state.files.index = 0;
            state.write.view = SourceView::Directory;
            state.note.status = "Space toggles a source; S scans all selected sources".to_owned();
        },
        FileEvent::Plan(plan, capacity) => {
            state.write.plan = Some(plan);
            state.write.capacity = Some(capacity);
            state.write.view = SourceView::Plan;
            state.note.status =
            "Source plan frozen; LTFS destination selection is the next step".to_owned();
        },
        FileEvent::Error(error) => {
            state.note.last_error = Some(error.clone());
            state.note.status = error;
        },
    }
}

/// Takes an event of the filesystems.
pub fn apply_file_event(state: &mut UiState, event: FileEvent)
    ensures
        file_event_applied(*old(state), event, *final(state)),
{
    match state.page {
        Page::Sequential => on_sequential_page(state, event),
        Page::ReadRestore => on_read_page(state, event),
        _ => on_write_page(state, event),
    }
}

// ---------------------------------------------------------------------------
// The device
// ---------------------------------------------------------------------------

/// An index within a list.
pub open spec fn clamped(index: usize, length: nat) -> usize {
    let last = if length == 0 {
        0
    } else {
        length - 1
    };
    if index < last {
        index
    } else {
        last as usize
    }
}

fn clamp(index: usize, length: usize) -> (within: usize)
    ensures
        within == clamped(index, length as nat),
{
    let last: usize = if length == 0 {
        0
    } else {
        length - 1
    };
    if index < last {
        index
    } else {
        last
    }
}

/// A snapshot of the device, and whether the volume was looked at.
pub open spec fn snapshot_taken(
    s: UiState,
    snapshot: DeviceSnapshot,
    channels: ChannelTelemetryFrame,
    scope: SnapshotScope,
    t: UiState,
) -> bool {
    let probed = scope is Ltfs;
    let error = if probed {
        probe_error(snapshot)
    } else {
        None
    };
    &&& t == (UiState {
        device: DevicePane {
            snapshot: Some(snapshot),
            channels,
            selected: true,
            ltfs_read: probed,
            ltfs_open_pending: s.device.ltfs_open_pending && !probed,
            ..s.device
        },
        page: if probed && s.device.ltfs_open_pending {
            Page::Ltfs
        } else {
            s.page
        },
        note: Note { busy: None, ..t.note },
        ..s
    })
    &&& match error {
        Some(message) => t.note.last_error is Some && t.note.last_error->0@ == message
            && t.note.status@ == "LTFS probe failed: "@ + message,
        None => t.note.last_error is None && t.note.status@ == (if probed {
            "LTFS partitions, label, index and consistency read completed"@
        } else {
            "Basic device state refreshed; LTFS metadata has not been probed"@
        }),
    }
}

/// What an event of a format changes.
pub open spec fn format_event_applied(s: UiState, event: WorkerEvent, t: UiState) -> bool {
    match event {
        WorkerEvent::FormatProgress(progress) => t == (UiState {
            format: FormatPane {
                view: FormatView::Running,
                message: t.format.message,
                ..s.format
            },
            note: Note { status: t.format.message, busy: None, ..s.note },
            ..s
        }) && t.format.message@ == format_phase_text(progress.phase) + ": "@ + progress.message@,
        WorkerEvent::FormatCompleted(result, snapshot, channels) => t == (UiState {
            format: FormatPane {
                result: Some(result),
                view: FormatView::Complete,
                message: t.format.message,
                ..s.format
            },
            device: DevicePane {
                snapshot: Some(*snapshot),
                channels,
                ltfs_read: true,
                ..s.device
            },
            note: Note { status: t.format.message, busy: None, last_error: None },
            ..s
        }) && t.format.message@ == "LTFS format completed and generation-1 volume verified"@,
        WorkerEvent::FormatFailed(error) => t == (UiState {
            format: FormatPane {
                view: FormatView::Complete,
                message: t.format.message,
                ..s.format
            },
            note: Note { status: t.format.message, busy: None, last_error: Some(error) },
            ..s
        }) && t.format.message@ == "FORMAT FAILED: "@ + error@,
        _ => false,
    }
}

/// What an event of an erase changes.
pub open spec fn erase_event_applied(s: UiState, event: WorkerEvent, t: UiState) -> bool {
    match event {
        WorkerEvent::EraseProgress(progress) => t == (UiState {
            erase: ErasePane {
                view: EraseView::Running,
                progress: progress.progress,
                message: t.erase.message,
                ..s.erase
            },
            note: Note { status: t.erase.message, busy: None, ..s.note },
            ..s
        }) && t.erase.message@ == erase_phase_text(progress.phase) + ": "@ + progress.message@,
        WorkerEvent::EraseCompleted(result, snapshot, channels) => t == (UiState {
            erase: ErasePane {
                result: Some(result),
                view: EraseView::Complete,
                progress: None,
                message: t.erase.message,
                ..s.erase
            },
            device: DevicePane {
                snapshot: Some(*snapshot),
                channels,
                ltfs_read: false,
                ..s.device
            },
            note: Note { status: t.erase.message, busy: None, last_error: None },
            ..s
        }) && t.erase.message@
            == "Erase completed; previous LTFS state was discarded and basic media state refreshed"@,
        WorkerEvent::EraseFailed(error, snapshot, channels) => t == (UiState {
            erase: ErasePane {
                view: EraseView::Complete,
                progress: None,
                message: t.erase.message,
                ..s.erase
            },
            device: DevicePane {
                snapshot: Some(*snapshot),
                channels,
                ltfs_read: false,
                ..s.device
            },
            note: Note { status: t.erase.message, busy: None, last_error: Some(error) },
            ..s
        }) && t.erase.message@ == "ERASE FAILED: "@ + error@,
        _ => false,
    }
}

/// What any other event of the device changes.
pub open spec fn plain_event_applied(s: UiState, event: WorkerEvent, t: UiState) -> bool {
    match event {
        WorkerEvent::Busy(message) => t == (UiState {
            note: Note { busy: Some(message), ..s.note },
            ..s
        }),
        WorkerEvent::Drives(drives) => t == (UiState {
            device: DevicePane {
                drives,
                drive_index: clamped(s.device.drive_index, drives@.len()),
                ..s.device
            },
            note: Note { busy: None, last_error: None, status: t.note.status },
            ..s
        }) && t.note.status@ == decimal_spec(drives@.len()) + " tape drive(s) discovered"@,
        WorkerEvent::Telemetry(health, channels, timestamp) => t == (UiState {
            device: DevicePane {
                snapshot: match s.device.snapshot {
                    Some(snapshot) => Some(
                        DeviceSnapshot { health: Some(*health), ..snapshot },
                    ),
                    None => None,
                },
                channels,
                ..s.device
            },
            note: Note { last_error: None, status: t.note.status, ..s.note },
            ..s
        }) && t.note.status@ == "Telemetry refreshed at "@ + clock_text(timestamp@),
        WorkerEvent::TelemetryUnavailable(channels, reason, timestamp) => t == (UiState {
            device: DevicePane { channels, ..s.device },
            note: Note { status: t.note.status, ..s.note },
            ..s
        }) && t.note.status@ == "Telemetry stale at "@ + clock_text(timestamp@) + ": "@
            + reason@,
        WorkerEvent::SequentialAssessment(mam, space) => t == (UiState {
            sequential: SequentialPane {
                mam: Some(mam),
                space,
                view: SequentialView::Confirm,
                ..s.sequential
            },
            note: Note { status: t.note.status, busy: None, last_error: None },
            ..s
        }) && t.note.status@ == "Review MAM, capacity and operation risk before starting"@,
        WorkerEvent::Status(message) => t == (UiState {
            note: Note { status: message, busy: None, last_error: None },
            ..s
        }),
        WorkerEvent::Error(error) => t == (UiState {
            device: DevicePane { ltfs_open_pending: false, ..s.device },
            note: Note { last_error: Some(error), status: t.note.status, busy: None },
            ..s
        }) && t.note.status@ == "ERROR: "@ + error@,
        _ => false,
    }
}

/// What an event of the device changes.
pub open spec fn worker_event_applied(s: UiState, event: WorkerEvent, t: UiState) -> bool {
    match event {
        WorkerEvent::Snapshot(snapshot, channels, scope) => snapshot_taken(
            s,
            *snapshot,
            channels,
            scope,
            t,
        ),
        WorkerEvent::FormatProgress(_) => format_event_applied(s, event, t),
        WorkerEvent::FormatCompleted(_, _, _) => format_event_applied(s, event, t),
        WorkerEvent::FormatFailed(_) => format_event_applied(s, event, t),
        WorkerEvent::EraseProgress(_) => erase_event_applied(s, event, t),
        WorkerEvent::EraseCompleted(_, _, _) => erase_event_applied(s, event, t),
        WorkerEvent::EraseFailed(_, _, _) => erase_event_applied(s, event, t),
        _ => plain_event_applied(s, event, t),
    }
}

fn take_snapshot(
    state: &mut UiState,
    snapshot: DeviceSnapshot,
    channels: ChannelTelemetryFrame,
    scope: SnapshotScope,
)
    ensures
        snapshot_taken(*old(state), snapshot, channels, scope, *final(state)),
{
    let probed = scope == SnapshotScope::Ltfs;
    let error = if probed {
        ltfs_probe_error(&snapshot)
    } else {
        None
    };
    state.device.snapshot = Some(snapshot);
    state.device.channels = channels;
    state.device.selected = true;
    state.device.ltfs_read = probed;
    if probed && state.device.ltfs_open_pending {
        state.page = Page::Ltfs;
        state.device.ltfs_open_pending = false;
    }
    state.note.busy = None;
    match error {
        Some(message) => {
            state.note.status = cat2("LTFS probe failed: ", message.as_str());
            state.note.last_error = Some(message);
        },
        None => {
            state.note.last_error = None;
            state.note.status = if probed {
                "LTFS partitions, label, index and consistency read completed".to_owned()
            } else {
                "Basic device state refreshed; LTFS metadata has not been probed".to_owned()
            };
        },
    }
}

fn on_format_event(state: &mut UiState, event: WorkerEvent)
    requires
        event is FormatProgress || event is FormatCompleted || event is FormatFailed,
    ensures
        format_event_applied(*old(state), event, *final(state)),
{
    match event {
        WorkerEvent::FormatProgress(progress) => {
            state.format.view = FormatView::Running;
            state.format.message = cat3(
                format_phase_name(progress.phase),
                ": ",
                progress.message.as_str(),
            );
        },
        WorkerEvent::FormatCompleted(result, snapshot, channels) => {
            state.format.result = Some(result);
            state.device.snapshot = Some(*snapshot);
            state.device.channels = channels;
            state.device.ltfs_read = true;
            state.format.view = FormatView::Complete;
            state.format.message =
            "LTFS format completed and generation-1 volume verified".to_owned();
            state.note.last_error = None;
        },
        WorkerEvent::FormatFailed(error) => {
            state.format.view = FormatView::Complete;
            state.format.message = cat2("FORMAT FAILED: ", error.as_str());
            state.note.last_error = Some(error);
        },
        _ => {},
    }
    state.note.status = state.format.message.clone();
    state.note.busy = None;
}

fn on_erase_event(state: &mut UiState, event: WorkerEvent)
    requires
        event is EraseProgress || event is EraseCompleted || event is EraseFailed,
    ensures
        erase_event_applied(*old(state), event, *final(state)),
{
    match event {
        WorkerEvent::EraseProgress(progress) => {
            state.erase.view = EraseView::Running;
            state.erase.progress = progress.progress;
            state.erase.message = cat3(
                erase_phase_name(progress.phase),
                ": ",
                progress.message.as_str(),
            );
        },
        WorkerEvent::EraseCompleted(result, snapshot, channels) => {
            state.erase.result = Some(result);
            state.device.snapshot = Some(*snapshot);
            state.device.channels = channels;
            state.device.ltfs_read = false;
            state.erase.view = EraseView::Complete;
            state.erase.progress = None;
            state.erase.message =
            "Erase completed; previous LTFS state was discarded and basic media state refreshed".to_owned();
            state.note.last_error = None;
        },
        WorkerEvent::EraseFailed(error, snapshot, channels) => {
            state.device.snapshot = Some(*snapshot);
            state.device.channels = channels;
            state.device.ltfs_read = false;
            state.erase.view = EraseView::Complete;
            state.erase.progress = None;
            state.erase.message = cat2("ERASE FAILED: ", error.as_str());
            state.note.last_error = Some(error);
        },
        _ => {},
    }
    state.note.status = state.erase.message.clone();
    state.note.busy = None;
}

fn on_plain_event(state: &mut UiState, event: WorkerEvent)
    requires
        event is Busy || event is Drives || event is Telemetry || event is TelemetryUnavailable
            || event is SequentialAssessment || event is Status || event is Error,
    ensures
        plain_event_applied(*old(state), event, *final(state)),
{
    match event {
        WorkerEvent::Busy(message) => {
            state.note.busy = Some(message);
        },
        WorkerEvent::Drives(drives) => {
            state.device.drive_index = clamp(state.device.drive_index, drives.len());
            state.note.status = cat2(
                decimal(drives.len() as u64).as_str(),
                " tape drive(s) discovered",
            );
            state.device.drives = drives;
            state.note.busy = None;
            state.note.last_error = None;
        },
        WorkerEvent::Telemetry(health, channels, timestamp) => {
            match state.device.snapshot.take() {
                Some(snapshot) => {
                    state.device.snapshot = Some(
                        DeviceSnapshot { health: Some(*health), ..snapshot },
                    );
                },
                None => {},
            }
            state.device.channels = channels;
            state.note.last_error = None;
            state.note.status = cat2(
                "Telemetry refreshed at ",
                display_clock(timestamp.as_str()).as_str(),
            );
        },
        WorkerEvent::TelemetryUnavailable(channels, reason, timestamp) => {
            state.device.channels = channels;
            state.note.status = cat4(
                "Telemetry stale at ",
                display_clock(timestamp.as_str()).as_str(),
                ": ",
                reason.as_str(),
            );
        },
        WorkerEvent::SequentialAssessment(mam, space) => {
            state.sequential.mam = Some(mam);
            state.sequential.space = space;
            state.sequential.view = SequentialView::Confirm;
            state.note.status =
            "Review MAM, capacity and operation risk before starting".to_owned();
            state.note.busy = None;
            state.note.last_error = None;
        },
        WorkerEvent::Status(message) => {
            state.note.status = message;
            state.note.busy = None;
            state.note.last_error = None;
        },
        WorkerEvent::Error(error) => {
            state.device.ltfs_open_pending = false;
            state.note.status = cat2("ERROR: ", error.as_str());
            state.note.last_error = Some(error);
            state.note.busy = None;
        },
        _ => {},
    }
}

/// Takes an event of the device.
pub fn apply_worker_event(state: &mut UiState, event: WorkerEvent)
    ensures
        worker_event_applied(*old(state), event, *final(state)),
{
    match event {
        WorkerEvent::Snapshot(snapshot, channels, scope) => {
            take_snapshot(state, *snapshot, channels, scope);
        },
        WorkerEvent::FormatProgress(progress) => {
            on_format_event(state, WorkerEvent::FormatProgress(progress));
        },
        WorkerEvent::FormatCompleted(result, snapshot, channels) => {
            on_format_event(state, WorkerEvent::FormatCompleted(result, snapshot, channels));
        },
        WorkerEvent::FormatFailed(error) => {
            on_format_event(state, WorkerEvent::FormatFailed(error));
        },
        WorkerEvent::EraseProgress(progress) => {
            on_erase_event(state, WorkerEvent::EraseProgress(progress));
        },
        WorkerEvent::EraseCompleted(result, snapshot, channels) => {
            on_erase_event(state, WorkerEvent::EraseCompleted(result, snapshot, channels));
        },
        WorkerEvent::EraseFailed(error, snapshot, channels) => {
            on_erase_event(state, WorkerEvent::EraseFailed(error, snapshot, channels));
        },
        other => {
            on_plain_event(state, other);
        },
    }
}

/// An erase, whether it succeeded or not, leaves nothing of what was read of the volume
/// before.
pub proof fn erase_forgets_the_volume(s: UiState, event: WorkerEvent, t: UiState)
    requires
        worker_event_applied(s, event, t),
        event is EraseCompleted || event is EraseFailed,
    ensures
        !t.device.ltfs_read,
        t.erase.view is Complete,
{
}

// ---------------------------------------------------------------------------
// Jobs
// ---------------------------------------------------------------------------

/// What an event of the jobs changes, and what the worker of the device is told: a drive
/// that a job works on is left alone.
pub open spec fn job_event_applied(
    s: UiState,
    event: JobEvent,
    t: UiState,
    command: Option<WorkerCommand>,
) -> bool {
    match event {
        JobEvent::States(list) => {
            &&& t == (UiState {
                jobs: JobsPane { list, index: clamped(s.jobs.index, list@.len()), ..s.jobs },
                note: Note { status: t.note.status, ..s.note },
                ..s
            })
            &&& if device_claimed(t) {
                command == Some(WorkerCommand::Suspend) && t.note.status@
                    == "Device owned by detached operation; local polling suspended"@
            } else if device_claimed(s) {
                command == Some(WorkerCommand::Resume) && t.note.status@
                    == "Detached operation reached a terminal state; telemetry will resume after lease release"@
            } else {
                command is None && t.note.status == s.note.status
            }
        },
        JobEvent::Error(error) => t == (UiState {
            note: Note { last_error: Some(error), status: t.note.status, ..s.note },
            ..s
        }) && t.note.status@ == "JOB ERROR: "@ + error@ && command is None,
    }
}

/// Takes an event of the jobs; gives what the worker of the device is told.
pub fn apply_job_event(state: &mut UiState, event: JobEvent) -> (command: Option<WorkerCommand>)
    ensures
        job_event_applied(*old(state), event, *final(state), command),
{
    match event {
        JobEvent::States(list) => {
            let was_claimed = selected_device_claimed(state);
            state.jobs.index = clamp(state.jobs.index, list.len());
            state.jobs.list = list;
            if selected_device_claimed(state) {
                state.note.status =
                "Device owned by detached operation; local polling suspended".to_owned();
                Some(WorkerCommand::Suspend)
            } else if was_claimed {
                state.note.status =
                "Detached operation reached a terminal state; telemetry will resume after lease release".to_owned();
                Some(WorkerCommand::Resume)
            } else {
                None
            }
        },
        JobEvent::Error(error) => {
            state.note.status = cat2("JOB ERROR: ", error.as_str());
            state.note.last_error = Some(error);
            None
        },
    }
}

} // verus!
