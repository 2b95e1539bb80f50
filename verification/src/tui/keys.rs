//! The keys of all pages.
use vstd::prelude::*;
use vstd::string::*;

use super::browse::{open_read_browser, read_browser_opened, shown_index, index_shown};
use super::erase_keys::{
    erase_key, erase_opened, handle_erase_key, is_down, is_leaving, is_letter, is_up, leaves,
    letter, moves_down, moves_up, only_tells, open_erase_workflow,
};
use super::format_keys::{format_key, format_opened, handle_format_key, open_format_workflow};
use super::read_keys::{handle_read_key, read_key};
use super::sequential_keys::{handle_sequential_key, sequential_key};
use super::source_keys::{handle_source_key, nothing, source_key};
use super::state::{
    claiming_position, device_claimed, drive_claiming_job, one_down, one_up,
    selected_device_claimed, shown_lifecycle, shows, step_down, step_up, DevicePane, Effect,
    ErasePane, EraseView, FileCommand, FilesPane, FormatPane, FormatView, JobsPane, Key, Note, Page, ReadPane, UiState, WorkerCommand,
    WritePane,
};
use crate::app::snapshot::{pending_device_snapshot, DeviceSnapshot, MediaLifecycle};
use crate::device::TapeDrive;
use crate::job::order::OperationKind;
use crate::job::state::active;
use crate::text::cat2;

verus! {

// ---------------------------------------------------------------------------
// Jobs
// ---------------------------------------------------------------------------

/// What a key does on the page of the jobs.
pub open spec fn job_key(s: UiState, key: Key, t: UiState, effect: Option<Effect>) -> bool {
    let k = s.jobs.index as int;
    let there = k < s.jobs.list@.len();
    let job = s.jobs.list@[k];
    if s.jobs.cancel_confirm {
        let closed = JobsPane { cancel_confirm: false, ..s.jobs };
        if letter(key, 'y', 'Y') {
            if there {
                t == (UiState {
                    jobs: closed,
                    note: Note { status: t.note.status, ..s.note },
                    ..s
                }) && t.note.status@ == "Cancellation requested; waiting for a safe stop point"@
                    && effect == Some(Effect::CancelJob(job.spec.id))
            } else {
                t == (UiState { jobs: closed, ..s }) && effect is None
            }
        } else if letter(key, 'n', 'N') || key is Esc {
            t == (UiState { jobs: closed, ..s }) && effect is None
        } else {
            nothing(s, t, effect)
        }
    } else if moves_up(key) {
        t == (UiState { jobs: JobsPane { index: one_up(s.jobs.index), ..s.jobs }, ..s })
            && effect is None
    } else if moves_down(key) {
        t == (UiState {
            jobs: JobsPane { index: one_down(s.jobs.index, s.jobs.list@.len()), ..s.jobs },
            ..s
        }) && effect is None
    } else if letter(key, 'c', 'C') && there && active(job.phase) {
        t == (UiState { jobs: JobsPane { cancel_confirm: true, ..s.jobs }, ..s })
            && effect is None
    } else if key is Enter && there && !active(job.phase) && job.spec.operation is Write {
        t == (UiState { page: Page::JobCompletion, ..s }) && effect is None
    } else if leaves(key) {
        t == (UiState { page: Page::Overview, ..s }) && effect is None
    } else {
        nothing(s, t, effect)
    }
}

/// Takes a key on the page of the jobs.
pub fn handle_job_key(state: &mut UiState, key: Key) -> (effect: Option<Effect>)
    ensures
        job_key(*old(state), key, *final(state), effect),
{
    let k: usize = state.jobs.index;
    let there = k < state.jobs.list.len();
    if state.jobs.cancel_confirm {
        if is_letter(key, 'y', 'Y') {
            state.jobs.cancel_confirm = false;
            if there {
                state.note.status =
                "Cancellation requested; waiting for a safe stop point".to_owned();
                return Some(Effect::CancelJob(state.jobs.list[k].spec.id.clone()));
            }
        } else if is_letter(key, 'n', 'N') || key == Key::Esc {
            state.jobs.cancel_confirm = false;
        }
        return None;
    }
    if is_up(key) {
        state.jobs.index = step_up(k);
    } else if is_down(key) {
        state.jobs.index = step_down(k, state.jobs.list.len());
    } else if is_letter(key, 'c', 'C') && there && state.jobs.list[k].phase.is_active() {
        state.jobs.cancel_confirm = true;
    } else if key == Key::Enter && there && state.jobs.list[k].phase.is_terminal()
        && state.jobs.list[k].spec.operation == OperationKind::Write {
        state.page = Page::JobCompletion;
    } else if is_leaving(key) {
        state.page = Page::Overview;
    }
    None
}

/// A job is asked to stop only once the user has confirmed it.
pub proof fn cancel_needs_confirmation(s: UiState, key: Key, t: UiState, effect: Option<Effect>)
    requires
        job_key(s, key, t, effect),
        effect is Some,
    ensures
        s.jobs.cancel_confirm,
        letter(key, 'y', 'Y'),
        s.jobs.index < s.jobs.list@.len(),
        effect == Some(Effect::CancelJob(s.jobs.list@[s.jobs.index as int].spec.id)),
{
}

// ---------------------------------------------------------------------------
// The choice of a drive
// ---------------------------------------------------------------------------

/// A snapshot of a drive of which nothing has been asked yet.
pub open spec fn is_pending(snapshot: DeviceSnapshot, drive: TapeDrive, now: Seq<char>) -> bool {
    &&& snapshot.drive == drive
    &&& snapshot.lifecycle is Unknown
    &&& snapshot.media is None
    &&& snapshot.volume is None
    &&& snapshot.diagnosis is None
    &&& snapshot.health is None
    &&& snapshot.refreshed_at@ == now
    &&& snapshot.warnings@.len() == 0
}

/// A drive is opened; one that a job works on leads to that job.
pub open spec fn drive_opened(s: UiState, now: Seq<char>, t: UiState, effect: Option<Effect>) -> bool {
    let drive = s.device.drives@[s.device.drive_index as int];
    let k = claiming_position(s.jobs.list@, drive.serial@);
    if k < s.jobs.list@.len() {
        t == (UiState {
            jobs: JobsPane { index: k as usize, ..s.jobs },
            page: Page::Jobs,
            note: Note { status: t.note.status, ..s.note },
            ..s
        }) && t.note.status@ == "Drive is owned by an active job; attached to job state"@
            && effect is None
    } else {
        &&& t == (UiState {
            device: DevicePane {
                selected: true,
                snapshot: t.device.snapshot,
                ltfs_read: false,
                ..s.device
            },
            page: Page::Overview,
            note: Note { busy: t.note.busy, status: t.note.status, ..s.note },
            ..s
        })
        &&& t.device.snapshot is Some
        &&& is_pending(t.device.snapshot->0, drive, now)
        &&& t.note.busy is Some
        &&& t.note.busy->0@ == "Refreshing basic device state"@
        &&& t.note.status@ == "Device opened; use [6] to enter LTFS Operations"@
        &&& effect == Some(Effect::Device(WorkerCommand::Select(s.device.drive_index)))
    }
}

/// A key on the list of drives.
pub open spec fn drives_key(
    s: UiState,
    key: Key,
    now: Seq<char>,
    t: UiState,
    effect: Option<Effect>,
) -> bool {
    if letter(key, 'q', 'Q') {
        t == (UiState { quit: true, ..s }) && effect is None
    } else if moves_up(key) {
        t == (UiState {
            device: DevicePane { drive_index: one_up(s.device.drive_index), ..s.device },
            ..s
        }) && effect is None
    } else if moves_down(key) {
        t == (UiState {
            device: DevicePane {
                drive_index: one_down(s.device.drive_index, s.device.drives@.len()),
                ..s.device
            },
            ..s
        }) && effect is None
    } else if key is Enter && s.device.drive_index < s.device.drives@.len() {
        drive_opened(s, now, t, effect)
    } else if letter(key, 'r', 'R') {
        t == s && effect == Some(Effect::Device(WorkerCommand::Discover))
    } else {
        nothing(s, t, effect)
    }
}

fn open_drive(state: &mut UiState, now: &str) -> (effect: Option<Effect>)
    requires
        old(state).device.drive_index < old(state).device.drives@.len(),
    ensures
        drive_opened(*old(state), now@, *final(state), effect),
{
    let drive = state.device.drives[state.device.drive_index].clone();
    match drive_claiming_job(&state.jobs.list, drive.serial.as_str()) {
        Some(k) => {
            state.jobs.index = k;
            state.page = Page::Jobs;
            state.note.status =
            "Drive is owned by an active job; attached to job state".to_owned();
            None
        },
        None => {
            state.device.selected = true;
            state.page = Page::Overview;
            state.device.snapshot = Some(pending_device_snapshot(drive, now.to_owned()));
            state.device.ltfs_read = false;
            state.note.busy = Some("Refreshing basic device state");
            state.note.status = "Device opened; use [6] to enter LTFS Operations".to_owned();
            Some(Effect::Device(WorkerCommand::Select(state.device.drive_index)))
        },
    }
}

fn on_drives(state: &mut UiState, key: Key, now: &str) -> (effect: Option<Effect>)
    ensures
        drives_key(*old(state), key, now@, *final(state), effect),
{
    if is_letter(key, 'q', 'Q') {
        state.quit = true;
        return None;
    }
    if is_up(key) {
        state.device.drive_index = step_up(state.device.drive_index);
        return None;
    }
    if is_down(key) {
        state.device.drive_index = step_down(state.device.drive_index, state.device.drives.len());
        return None;
    }
    if key == Key::Enter && state.device.drive_index < state.device.drives.len() {
        return open_drive(state, now);
    }
    if is_letter(key, 'r', 'R') {
        return Some(Effect::Device(WorkerCommand::Discover));
    }
    None
}

// ---------------------------------------------------------------------------
// The overview
// ---------------------------------------------------------------------------

/// A command for the cartridge, where it is available and no job works on the drive.
pub open spec fn cartridge_started(
    s: UiState,
    available: bool,
    command: WorkerCommand,
    label: Seq<char>,
    t: UiState,
    effect: Option<Effect>,
) -> bool {
    if device_claimed(s) {
        only_tells(s, label + " blocked: detached operation owns this drive"@, t)
            && effect is None
    } else if !available {
        only_tells(s, label + " is unavailable in the current cartridge state"@, t)
            && effect is None
    } else {
        t == s && (match effect {
            Some(Effect::Cartridge(c, l)) => c == command && l@ == label,
            _ => false,
        })
    }
}

fn start_available_cartridge_command(
    state: &mut UiState,
    available: bool,
    command: WorkerCommand,
    label: &'static str,
) -> (effect: Option<Effect>)
    ensures
        cartridge_started(*old(state), available, command, label@, *final(state), effect),
{
    if selected_device_claimed(state) {
        state.note.status = cat2(label, " blocked: detached operation owns this drive");
        None
    } else if !available {
        state.note.status = cat2(label, " is unavailable in the current cartridge state");
        None
    } else {
        Some(Effect::Cartridge(command, label))
    }
}

/// The command, its name, and where the cartridge has to be for it.
pub open spec fn cartridge_command(s: UiState, key: Key) -> Option<(WorkerCommand, bool, Seq<char>)> {
    let at = shown_lifecycle(s);
    if key == Key::Char('1') {
        Some(
            (
                WorkerCommand::LoadUnthreaded,
                at == Some(MediaLifecycle::NoMediaDetected),
                "Load Unthreaded"@,
            ),
        )
    } else if key == Key::Char('2') {
        Some(
            (
                WorkerCommand::Load,
                at == Some(MediaLifecycle::NoMediaDetected) || at == Some(
                    MediaLifecycle::PresentUnthreaded,
                ),
                "Load & Thread"@,
            ),
        )
    } else if key == Key::Char('3') {
        Some(
            (WorkerCommand::Unthread, at == Some(MediaLifecycle::LoadedThreaded), "Unthread"@),
        )
    } else if key == Key::Char('4') {
        Some(
            (
                WorkerCommand::Unload,
                at == Some(MediaLifecycle::PresentUnthreaded) || at == Some(
                    MediaLifecycle::LoadedThreaded,
                ),
                "Eject"@,
            ),
        )
    } else {
        None
    }
}

/// A digit on the overview.
pub open spec fn overview_key(s: UiState, key: Key, t: UiState, effect: Option<Effect>) -> bool {
    let threaded = shown_lifecycle(s) == Some(MediaLifecycle::LoadedThreaded);
    if key == Key::Char('5') {
        erase_opened(s, t) && effect is None
    } else if key == Key::Char('6') {
        if threaded {
            t == (UiState {
                device: DevicePane { ltfs_open_pending: true, ..s.device },
                note: Note { status: t.note.status, ..s.note },
                ..s
            }) && t.note.status@ == "Reading LTFS partitions before opening operations"@ && effect
                == Some(Effect::Device(WorkerCommand::ReadLtfs))
        } else {
            only_tells(s, "LTFS Operations requires Load & Thread first"@, t) && effect is None
        }
    } else if key == Key::Char('7') {
        if threaded {
            t == (UiState {
                page: Page::Sequential,
                note: Note { status: t.note.status, ..s.note },
                ..s
            }) && t.note.status@ == "Select a RAW/TAR sequential workflow"@ && effect is None
        } else {
            only_tells(s, "Sequential Operations requires Load & Thread first"@, t)
                && effect is None
        }
    } else {
        match cartridge_command(s, key) {
            Some((command, available, label)) => cartridge_started(
                s,
                available,
                command,
                label,
                t,
                effect,
            ),
            None => nothing(s, t, effect),
        }
    }
}

fn on_overview(state: &mut UiState, key: Key) -> (effect: Option<Effect>)
    ensures
        overview_key(*old(state), key, *final(state), effect),
{
    let threaded = shows(state, MediaLifecycle::LoadedThreaded);
    let empty = shows(state, MediaLifecycle::NoMediaDetected);
    let inserted = shows(state, MediaLifecycle::PresentUnthreaded);
    if key == Key::Char('1') {
        return start_available_cartridge_command(
            state,
            empty,
            WorkerCommand::LoadUnthreaded,
            "Load Unthreaded",
        );
    }
    if key == Key::Char('2') {
        return start_available_cartridge_command(
            state,
            empty || inserted,
            WorkerCommand::Load,
            "Load & Thread",
        );
    }
    if key == Key::Char('3') {
        return start_available_cartridge_command(
            state,
            threaded,
            WorkerCommand::Unthread,
            "Unthread",
        );
    }
    if key == Key::Char('4') {
        return start_available_cartridge_command(
            state,
            inserted || threaded,
            WorkerCommand::Unload,
            "Eject",
        );
    }
    if key == Key::Char('5') {
        open_erase_workflow(state);
        return None;
    }
    if key == Key::Char('6') {
        if threaded {
            state.device.ltfs_open_pending = true;
            state.note.status = "Reading LTFS partitions before opening operations".to_owned();
            return Some(Effect::Device(WorkerCommand::ReadLtfs));
        }
        state.note.status = "LTFS Operations requires Load & Thread first".to_owned();
        return None;
    }
    if key == Key::Char('7') {
        if threaded {
            state.page = Page::Sequential;
            state.note.status = "Select a RAW/TAR sequential workflow".to_owned();
        } else {
            state.note.status = "Sequential Operations requires Load & Thread first".to_owned();
        }
        return None;
    }
    None
}

// ---------------------------------------------------------------------------
// The LTFS page
// ---------------------------------------------------------------------------

/// The volume that is shown may be written to.
pub open spec fn writable(s: UiState) -> bool {
    match s.device.snapshot {
        Some(snapshot) => snapshot.lifecycle is LoadedThreaded && snapshot.diagnosis is Some
            && snapshot.diagnosis->0.safe_for_normal_write,
        None => false,
    }
}

fn is_writable(s: &UiState) -> (yes: bool)
    ensures
        yes == writable(*s),
{
    match &s.device.snapshot {
        Some(snapshot) => if snapshot.lifecycle == MediaLifecycle::LoadedThreaded {
            match &snapshot.diagnosis {
                Some(diagnosis) => diagnosis.safe_for_normal_write,
                None => false,
            }
        } else {
            false
        },
        None => false,
    }
}

/// The page on which a read is prepared is opened.
pub open spec fn read_opened(s: UiState, t: UiState) -> bool {
    if shown_index(s) is None {
        only_tells(s, "LTFS Read unavailable: no readable LTFS index"@, t)
    } else {
        &&& t.note.status@
            == "Select LTFS files/directories with Space; press S to build the Read Plan"@
        &&& t.read.selected@.len() == 0
        &&& exists|m: UiState| #[trigger]
            read_browser_opened(s, "/"@, m) && t == (UiState {
                page: Page::ReadRestore,
                read: ReadPane {
                    selected: t.read.selected,
                    plan: None,
                    destination: None,
                    ..m.read
                },
                note: Note { status: t.note.status, ..m.note },
                ..m
            })
    }
}

/// The page on which a write is prepared is opened.
pub open spec fn write_opened(s: UiState, t: UiState, effect: Option<Effect>) -> bool {
    if device_claimed(s) {
        only_tells(s, "Write blocked: detached operation owns this drive"@, t) && effect is None
    } else if writable(s) {
        t == (UiState {
            page: Page::WriteSource,
            files: FilesPane { busy: true, ..s.files },
            write: WritePane { plan: None, capacity: None, roots: t.write.roots, ..s.write },
            ..s
        }) && t.write.roots@.len() == 0 && effect == Some(Effect::File(FileCommand::ListMounts))
    } else {
        only_tells(
            s,
            "Write requires a loaded, healthy LTFS volume; enter through [6] LTFS Operations"@,
            t,
        ) && effect is None
    }
}

fn open_read(state: &mut UiState)
    ensures
        read_opened(*old(state), *final(state)),
{
    if index_shown(state).is_none() {
        state.note.status = "LTFS Read unavailable: no readable LTFS index".to_owned();
        return;
    }
    let ghost s = *state;
    open_read_browser(state, "/");
    let ghost m = *state;
    assert(read_browser_opened(s, "/"@, m));
    state.page = Page::ReadRestore;
    state.read.selected = Vec::new();
    state.read.plan = None;
    state.read.destination = None;
    state.note.status =
    "Select LTFS files/directories with Space; press S to build the Read Plan".to_owned();
}

fn open_write(state: &mut UiState) -> (effect: Option<Effect>)
    ensures
        write_opened(*old(state), *final(state), effect),
{
    if selected_device_claimed(state) {
        state.note.status = "Write blocked: detached operation owns this drive".to_owned();
        return None;
    }
    if is_writable(state) {
        state.page = Page::WriteSource;
        state.files.busy = true;
        state.write.plan = None;
        state.write.capacity = None;
        state.write.roots = Vec::new();
        return Some(Effect::File(FileCommand::ListMounts));
    }
    state.note.status =
    "Write requires a loaded, healthy LTFS volume; enter through [6] LTFS Operations".to_owned();
    None
}

/// A key that means something on the LTFS page only.
pub open spec fn is_ltfs_key(key: Key) -> bool {
    key == Key::Char('1') || key == Key::Char('2') || letter(key, 'w', 'W') || key == Key::Char(
        '3',
    ) || letter(key, 'f', 'F')
}

/// A key on the LTFS page.
pub open spec fn ltfs_key(s: UiState, key: Key, t: UiState, effect: Option<Effect>) -> bool {
    if key == Key::Char('1') {
        read_opened(s, t) && effect is None
    } else if key == Key::Char('2') || letter(key, 'w', 'W') {
        write_opened(s, t, effect)
    } else {
        format_opened(s, t) && effect is None
    }
}

fn on_ltfs(state: &mut UiState, key: Key) -> (effect: Option<Effect>)
    ensures
        ltfs_key(*old(state), key, *final(state), effect),
{
    if key == Key::Char('1') {
        open_read(state);
        None
    } else if key == Key::Char('2') || is_letter(key, 'w', 'W') {
        open_write(state)
    } else {
        open_format_workflow(state);
        None
    }
}

// ---------------------------------------------------------------------------
// The keys of every page of a drive
// ---------------------------------------------------------------------------

/// A command for the device, where no job works on the drive.
pub open spec fn unless_claimed(
    s: UiState,
    blocked: Seq<char>,
    command: WorkerCommand,
    t: UiState,
    effect: Option<Effect>,
) -> bool {
    if device_claimed(s) {
        only_tells(s, blocked, t) && effect is None
    } else {
        t == s && effect == Some(Effect::Device(command))
    }
}

fn send_unless_claimed(state: &mut UiState, blocked: &str, command: WorkerCommand) -> (effect: Option<
    Effect,
>)
    ensures
        unless_claimed(*old(state), blocked@, command, *final(state), effect),
{
    if selected_device_claimed(state) {
        state.note.status = blocked.to_owned();
        None
    } else {
        Some(Effect::Device(command))
    }
}

/// A key that means the same on every page of a drive.
pub open spec fn common_key(s: UiState, key: Key, t: UiState, effect: Option<Effect>) -> bool {
    if letter(key, 'e', 'E') {
        erase_opened(s, t) && effect is None
    } else if letter(key, 'd', 'D') && s.note.last_error is Some {
        t == (UiState { page: Page::ErrorDetails, ..s }) && effect is None
    } else if letter(key, 'r', 'R') {
        unless_claimed(
            s,
            "Refresh blocked: detached operation owns this drive"@,
            WorkerCommand::Refresh,
            t,
            effect,
        )
    } else if letter(key, 'l', 'L') {
        unless_claimed(
            s,
            "Load blocked: detached operation owns this drive"@,
            WorkerCommand::Load,
            t,
            effect,
        )
    } else if letter(key, 'u', 'U') {
        unless_claimed(
            s,
            "Unload blocked: detached operation owns this drive"@,
            WorkerCommand::Unload,
            t,
            effect,
        )
    } else {
        nothing(s, t, effect)
    }
}

fn on_common(state: &mut UiState, key: Key) -> (effect: Option<Effect>)
    ensures
        common_key(*old(state), key, *final(state), effect),
{
    if is_letter(key, 'e', 'E') {
        open_erase_workflow(state);
        return None;
    }
    if is_letter(key, 'd', 'D') && state.note.last_error.is_some() {
        state.page = Page::ErrorDetails;
        return None;
    }
    if is_letter(key, 'r', 'R') {
        return send_unless_claimed(
            state,
            "Refresh blocked: detached operation owns this drive",
            WorkerCommand::Refresh,
        );
    }
    if is_letter(key, 'l', 'L') {
        return send_unless_claimed(
            state,
            "Load blocked: detached operation owns this drive",
            WorkerCommand::Load,
        );
    }
    if is_letter(key, 'u', 'U') {
        return send_unless_claimed(
            state,
            "Unload blocked: detached operation owns this drive",
            WorkerCommand::Unload,
        );
    }
    None
}

/// A digit of the overview.
pub open spec fn is_overview_key(key: Key) -> bool {
    match key {
        Key::Char(c) => '1' <= c && c <= '7',
        _ => false,
    }
}

/// A key on a page of a drive.
pub open spec fn device_key(s: UiState, key: Key, t: UiState, effect: Option<Effect>) -> bool {
    if leaves(key) {
        effect is None && (if s.page is Overview {
            t == (UiState {
                device: DevicePane { selected: false, snapshot: None, ..s.device },
                ..s
            })
        } else {
            t == (UiState { page: Page::Overview, ..s })
        })
    } else if key == Key::Function(1) {
        t == (UiState { page: Page::Overview, ..s }) && effect is None
    } else if key == Key::Function(3) {
        t == (UiState { page: Page::Health, ..s }) && effect is None
    } else if s.page is Overview && is_overview_key(key) {
        overview_key(s, key, t, effect)
    } else if s.page is Ltfs && is_ltfs_key(key) {
        ltfs_key(s, key, t, effect)
    } else {
        common_key(s, key, t, effect)
    }
}

fn on_device_page(state: &mut UiState, key: Key) -> (effect: Option<Effect>)
    ensures
        device_key(*old(state), key, *final(state), effect),
{
    if is_leaving(key) {
        if state.page == Page::Overview {
            state.device.selected = false;
            state.device.snapshot = None;
        } else {
            state.page = Page::Overview;
        }
        return None;
    }
    if key == Key::Function(1) {
        state.page = Page::Overview;
        return None;
    }
    if key == Key::Function(3) {
        state.page = Page::Health;
        return None;
    }
    let digit = match key {
        Key::Char(c) => '1' <= c && c <= '7',
        _ => false,
    };
    if state.page == Page::Overview && digit {
        return on_overview(state, key);
    }
    if state.page == Page::Ltfs && (key == Key::Char('1') || key == Key::Char('2') || is_letter(
        key,
        'w',
        'W',
    ) || key == Key::Char('3') || is_letter(key, 'f', 'F')) {
        return on_ltfs(state, key);
    }
    on_common(state, key)
}

/// What a key does.
pub open spec fn key_taken(
    s: UiState,
    key: Key,
    now: Seq<char>,
    t: UiState,
    effect: Option<Effect>,
) -> bool {
    if s.note.busy is Some {
        nothing(s, t, effect)
    } else {
        match s.page {
            Page::WriteSource => source_key(s, key, t, effect),
            Page::ReadRestore => read_key(s, key, t, effect),
            Page::Sequential => sequential_key(s, key, t, effect),
            Page::Jobs => job_key(s, key, t, effect),
            Page::JobCompletion => effect is None && (if leaves(key) {
                t == (UiState { page: Page::Jobs, ..s })
            } else {
                t == s
            }),
            Page::Format => format_key(s, key, t, effect),
            Page::Erase => erase_key(s, key, t, effect),
            _ => if key == Key::Function(4) {
                t == (UiState { page: Page::Jobs, ..s }) && effect is None
            } else if !s.device.selected {
                drives_key(s, key, now, t, effect)
            } else {
                device_key(s, key, t, effect)
            },
        }
    }
}

/// Takes a key; gives what the program has to do for it.
pub fn handle_key(state: &mut UiState, key: Key, now: &str) -> (effect: Option<Effect>)
    ensures
        key_taken(*old(state), key, now@, *final(state), effect),
{
    if state.note.busy.is_some() {
        return None;
    }
    match state.page {
        Page::WriteSource => handle_source_key(state, key),
        Page::ReadRestore => handle_read_key(state, key),
        Page::Sequential => handle_sequential_key(state, key),
        Page::Jobs => handle_job_key(state, key),
        Page::JobCompletion => {
            if is_leaving(key) {
                state.page = Page::Jobs;
            }
            None
        },
        Page::Format => handle_format_key(state, key),
        Page::Erase => handle_erase_key(state, key),
        _ => {
            if key == Key::Function(4) {
                state.page = Page::Jobs;
                None
            } else if !state.device.selected {
                on_drives(state, key, now)
            } else {
                on_device_page(state, key)
            }
        },
    }
}

/// The worker of the device did not take a command.
pub open spec fn command_not_taken(s: UiState, effect: Effect, t: UiState) -> bool {
    match effect {
        Effect::Cartridge(_, label) => only_tells(
            s,
            label@ + " failed: device worker has exited"@,
            t,
        ),
        Effect::Device(WorkerCommand::ReadLtfs) => t == (UiState {
            device: DevicePane { ltfs_open_pending: false, ..s.device },
            note: Note { status: t.note.status, ..s.note },
            ..s
        }) && t.note.status@ == "LTFS probe failed: device worker has exited"@,
        Effect::Device(WorkerCommand::Erase(_)) => t == (UiState {
            erase: ErasePane { view: EraseView::Complete, message: t.erase.message, ..s.erase },
            ..s
        }) && t.erase.message@ == "ERASE FAILED: device worker is unavailable"@,
        Effect::Device(WorkerCommand::Format(_)) => t == (UiState {
            format: FormatPane {
                view: FormatView::Complete,
                message: t.format.message,
                ..s.format
            },
            ..s
        }) && t.format.message@ == "FORMAT FAILED: device worker is unavailable"@,
        _ => t == s,
    }
}

/// The worker of the device did not take a command.
pub fn not_taken(state: &mut UiState, effect: &Effect)
    ensures
        command_not_taken(*old(state), *effect, *final(state)),
{
    match effect {
        Effect::Cartridge(_, label) => {
            state.note.status = cat2(*label, " failed: device worker has exited");
        },
        Effect::Device(WorkerCommand::ReadLtfs) => {
            state.device.ltfs_open_pending = false;
            state.note.status = "LTFS probe failed: device worker has exited".to_owned();
        },
        Effect::Device(WorkerCommand::Erase(_)) => {
            super::erase_keys::erase_not_taken(state);
        },
        Effect::Device(WorkerCommand::Format(_)) => {
            super::format_keys::format_not_taken(state);
        },
        _ => {},
    }
}

// ---------------------------------------------------------------------------
// Laws
// ---------------------------------------------------------------------------

/// While something is being waited for, no key does anything.
pub proof fn busy_interface_ignores_keys(s: UiState, key: Key, now: Seq<char>, t: UiState, effect: Option<Effect>)
    requires
        key_taken(s, key, now, t, effect),
        s.note.busy is Some,
    ensures
        t == s,
        effect is None,
{
}

/// A drive that a job works on gets no command from the overview, the LTFS page, the health
/// page or the page of the last error, and neither an erase nor a format nor a write is
/// opened there. There is one exception: the key of the overview that leads to the LTFS
/// page asks for the volume to be read, whoever works on the drive.
pub proof fn claimed_drive_gets_no_command(s: UiState, key: Key, now: Seq<char>, t: UiState, effect: Option<Effect>)
    requires
        key_taken(s, key, now, t, effect),
        device_claimed(s),
        s.device.selected,
        s.page is Overview || s.page is Ltfs || s.page is Health || s.page is ErrorDetails,
    ensures
        effect is None || (s.page is Overview && key == Key::Char('6') && effect == Some(
            Effect::Device(WorkerCommand::ReadLtfs),
        )),
        !(t.page is Erase),
        !(t.page is Format),
        !(t.page is WriteSource),
{
}

} // verus!
