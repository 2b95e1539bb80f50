//! What events change of the interface, and what they leave alone.
use vstd::prelude::*;

use super::events::{file_event_applied, job_event_applied, worker_event_applied};
use super::state::{
    device_claimed, FileEvent, JobEvent, UiState, WorkerCommand, WorkerEvent,
};

verus! {

/// An event of the filesystems ends the wait for it, and changes neither the page nor
/// anything of the device, the jobs, a format or an erase. A plan is taken only by the page
/// that asked for it, with the capacity that belongs to it.
pub proof fn file_event_stays_on_its_page(s: UiState, event: FileEvent, t: UiState)
    requires
        file_event_applied(s, event, t),
    ensures
        !t.files.busy,
        t.page == s.page,
        t.device == s.device,
        t.jobs == s.jobs,
        t.format == s.format,
        t.erase == s.erase,
        t.start == s.start,
        s.page is Sequential ==> t.write == s.write && t.read == s.read,
        s.page is ReadRestore ==> t.write == s.write && t.sequential == s.sequential,
        !(s.page is Sequential) && !(s.page is ReadRestore) ==> t.read == s.read && t.sequential
            == s.sequential,
        event matches FileEvent::Mounts(mounts) ==> t.files.mounts == mounts && t.files.index == 0,
        event matches FileEvent::Directory(path, entries) ==> t.files.path == Some(path)
            && t.files.index == 0,
        event matches FileEvent::Plan(plan, capacity) ==> if s.page is Sequential
            || s.page is ReadRestore {
            t.write == s.write
        } else {
            t.write.plan == Some(plan) && t.write.capacity == Some(capacity)
        },
        event matches FileEvent::Error(error) ==> t.note.status == error && t.files.entries
            == s.files.entries && t.files.path == s.files.path,
{
}

/// An event of the device changes nothing of what is planned for a write or a read, and
/// nothing of the jobs. What the drive holds is taken as it was told, and the chosen drive
/// stays within the list.
pub proof fn worker_event_keeps_the_plans(s: UiState, event: WorkerEvent, t: UiState)
    requires
        worker_event_applied(s, event, t),
    ensures
        t.write == s.write,
        t.read == s.read,
        t.files == s.files,
        t.jobs == s.jobs,
        t.start == s.start,
        event matches WorkerEvent::Snapshot(snapshot, channels, scope) ==> t.device.snapshot
            == Some(*snapshot) && t.device.channels == channels,
        event matches WorkerEvent::FormatCompleted(result, snapshot, _) ==> t.device.snapshot
            == Some(*snapshot) && t.format.result == Some(result) && t.device.ltfs_read,
        event matches WorkerEvent::EraseCompleted(result, snapshot, _) ==> t.device.snapshot
            == Some(*snapshot) && t.erase.result == Some(result) && !t.device.ltfs_read,
        event matches WorkerEvent::FormatFailed(error) ==> t.device == s.device && t.format.result
            == s.format.result && t.note.last_error == Some(error),
        event matches WorkerEvent::Drives(drives) ==> t.device.drives == drives && (
        drives@.len() > 0 ==> t.device.drive_index < drives@.len()) && (s.device.drive_index
            < drives@.len() ==> t.device.drive_index == s.device.drive_index),
        event matches WorkerEvent::Telemetry(health, channels, _) ==> {
            &&& t.device.channels == channels
            &&& t.device.snapshot is Some <==> s.device.snapshot is Some
            &&& t.device.snapshot matches Some(snapshot) ==> snapshot.health == Some(*health)
                && snapshot.drive == s.device.snapshot->0.drive && snapshot.media
                == s.device.snapshot->0.media
        },
        event matches WorkerEvent::Error(error) ==> t.note.last_error == Some(error)
            && t.device.snapshot == s.device.snapshot,
{
}

/// The worker of the device is told to stay away exactly while a job claims the drive, and to
/// come back exactly once the last claim is gone; the chosen job stays within the list.
pub proof fn claimed_drive_is_left_alone(
    s: UiState,
    event: JobEvent,
    t: UiState,
    command: Option<WorkerCommand>,
)
    requires
        job_event_applied(s, event, t, command),
    ensures
        t.write == s.write,
        t.read == s.read,
        t.device == s.device,
        t.page == s.page,
        event matches JobEvent::States(list) ==> {
            &&& t.jobs.list == list
            &&& list@.len() > 0 ==> t.jobs.index < list@.len()
            &&& command == Some(WorkerCommand::Suspend) <==> device_claimed(t)
            &&& command == Some(WorkerCommand::Resume) <==> device_claimed(s) && !device_claimed(t)
        },
        event is Error ==> command is None && t.jobs == s.jobs,
{
}

} // verus!
