//! What the worker of the device does for each command.
use vstd::prelude::*;
use vstd::string::*;

use super::state::{
    lifecycle_label, lifecycle_text, WorkerCommand, WorkerEvent, WorkerOwnershipState,
};
use crate::app::erase::EraseMode;
use crate::app::format::FormatOptions;
use crate::app::snapshot::MediaLifecycle;
use crate::app::telemetry::CHANNEL_SAMPLE_SECONDS;
use crate::device::TapeDrive;
use crate::text::{cat2, cat4, cat6};

verus! {

/// What is done with a cartridge.
#[derive(Debug, Clone, Copy, PartialEq, Eq, Structural)]
pub enum CartridgeAction {
    Load,
    LoadUnthreaded,
    Unthread,
    Unload,
}

/// The name of the operation under which the device is taken.
pub open spec fn operation_text(action: CartridgeAction) -> Seq<char> {
    match action {
        CartridgeAction::Load => "load-threaded"@,
        CartridgeAction::LoadUnthreaded => "load-unthreaded"@,
        CartridgeAction::Unthread => "unthread"@,
        CartridgeAction::Unload => "eject"@,
    }
}

/// What is told while it is done.
pub open spec fn busy_text(action: CartridgeAction) -> Seq<char> {
    match action {
        CartridgeAction::Load => "Loading and threading cartridge"@,
        CartridgeAction::LoadUnthreaded => "Loading cartridge without threading"@,
        CartridgeAction::Unthread => "Unthreading cartridge without ejecting"@,
        CartridgeAction::Unload => "Ejecting cartridge"@,
    }
}

/// Where the cartridge is to be then.
pub open spec fn expected_lifecycle(action: CartridgeAction) -> MediaLifecycle {
    match action {
        CartridgeAction::Load => MediaLifecycle::LoadedThreaded,
        CartridgeAction::LoadUnthreaded => MediaLifecycle::PresentUnthreaded,
        CartridgeAction::Unthread => MediaLifecycle::PresentUnthreaded,
        CartridgeAction::Unload => MediaLifecycle::NoMediaDetected,
    }
}

impl CartridgeAction {
    pub fn operation(self) -> (text: &'static str)
        ensures
            text@ == operation_text(self),
    {
        match self {
            CartridgeAction::Load => "load-threaded",
            CartridgeAction::LoadUnthreaded => "load-unthreaded",
            CartridgeAction::Unthread => "unthread",
            CartridgeAction::Unload => "eject",
        }
    }

    pub fn busy(self) -> (text: &'static str)
        ensures
            text@ == busy_text(self),
    {
        match self {
            CartridgeAction::Load => "Loading and threading cartridge",
            CartridgeAction::LoadUnthreaded => "Loading cartridge without threading",
            CartridgeAction::Unthread => "Unthreading cartridge without ejecting",
            CartridgeAction::Unload => "Ejecting cartridge",
        }
    }

    pub fn expected(self) -> (lifecycle: MediaLifecycle)
        ensures
            lifecycle == expected_lifecycle(self),
    {
        match self {
            CartridgeAction::Load => MediaLifecycle::LoadedThreaded,
            CartridgeAction::LoadUnthreaded => MediaLifecycle::PresentUnthreaded,
            CartridgeAction::Unthread => MediaLifecycle::PresentUnthreaded,
            CartridgeAction::Unload => MediaLifecycle::NoMediaDetected,
        }
    }
}

/// What the worker does.
#[derive(Debug, PartialEq, Eq)]
pub enum WorkerTask {
    Discover,
    /// A basic snapshot, under the name of an operation; the channels are tracked anew
    /// where another drive was chosen.
    Refresh { operation: &'static str, anew: bool },
    ReadLtfs,
    Cartridge(CartridgeAction),
    Format(FormatOptions),
    Erase(EraseMode),
    Assess(Option<String>),
    /// A job takes over: the interface is told that the worker has let go.
    Acknowledge,
    Resumed,
    Tell(WorkerEvent),
    /// Something is told, and the next command is awaited at once.
    Refuse(WorkerEvent),
    /// The channels are tracked anew, and something is told.
    TellAnew(WorkerEvent),
    Rest,
    Stop,
}

/// The task touches the device.
pub open spec fn touches_device(task: WorkerTask) -> bool {
    task is Refresh || task is ReadLtfs || task is Cartridge || task is Format || task is Erase
        || task is Assess
}

/// A worker of the device.
pub struct DeviceWorker {
    pub drives: Vec<TapeDrive>,
    pub selected: Option<TapeDrive>,
    pub ownership: WorkerOwnershipState,
}

/// The task tells this status.
pub open spec fn tells_status(task: WorkerTask, text: Seq<char>) -> bool {
    match task {
        WorkerTask::Tell(WorkerEvent::Status(message)) => message@ == text,
        _ => false,
    }
}

/// A command that needs the device: it is done where the worker owns the device and a
/// drive is chosen, and refused where a job does.
pub open spec fn needs_device(
    w: DeviceWorker,
    name: Seq<char>,
    wanted: WorkerTask,
    task: WorkerTask,
) -> bool {
    if !(w.ownership is Active) {
        tells_status(task, name + " rejected: device worker is suspended"@)
    } else if w.selected is Some {
        task == wanted
    } else {
        task is Rest
    }
}

/// A drive is chosen.
pub open spec fn drive_chosen(w: DeviceWorker, index: usize, v: DeviceWorker, task: WorkerTask) -> bool {
    if index >= w.drives@.len() {
        v == w && (match task {
            WorkerTask::Refuse(WorkerEvent::Error(message)) => message@ == "选择的磁带机不存在"@,
            _ => false,
        })
    } else {
        v == (DeviceWorker { selected: Some(w.drives@[index as int]), ..w }) && (match task {
            WorkerTask::Refresh { operation, anew } => w.ownership is Active && operation@
                == "select-basic-refresh"@ && anew,
            WorkerTask::TellAnew(WorkerEvent::Status(message)) => !(w.ownership is Active)
                && message@ == "Device worker is suspended; no device access performed"@,
            _ => false,
        })
    }
}

/// What a command makes of a worker, and what it does.
pub open spec fn worker_commanded(
    w: DeviceWorker,
    command: WorkerCommand,
    v: DeviceWorker,
    task: WorkerTask,
) -> bool {
    match command {
        WorkerCommand::Discover => v == w && task is Discover,
        WorkerCommand::Select(index) => drive_chosen(w, index, v, task),
        WorkerCommand::Refresh => v == w && (if !(w.ownership is Active) {
            tells_status(task, "Refresh rejected: device worker is suspended"@)
        } else if w.selected is Some {
            match task {
                WorkerTask::Refresh { operation, anew } => operation@ == "basic-refresh"@ && !anew,
                _ => false,
            }
        } else {
            task is Rest
        }),
        WorkerCommand::ReadLtfs => v == w && needs_device(
            w,
            "Read LTFS"@,
            WorkerTask::ReadLtfs,
            task,
        ),
        WorkerCommand::Load => v == w && needs_device(
            w,
            "Load"@,
            WorkerTask::Cartridge(CartridgeAction::Load),
            task,
        ),
        WorkerCommand::LoadUnthreaded => v == w && needs_device(
            w,
            "Load Unthreaded"@,
            WorkerTask::Cartridge(CartridgeAction::LoadUnthreaded),
            task,
        ),
        WorkerCommand::Unthread => v == w && needs_device(
            w,
            "Unthread"@,
            WorkerTask::Cartridge(CartridgeAction::Unthread),
            task,
        ),
        WorkerCommand::Unload => v == w && needs_device(
            w,
            "Unload"@,
            WorkerTask::Cartridge(CartridgeAction::Unload),
            task,
        ),
        WorkerCommand::Format(options) => v == w && needs_device(
            w,
            "Format"@,
            WorkerTask::Format(options),
            task,
        ),
        WorkerCommand::Erase(mode) => v == w && needs_device(
            w,
            "Erase"@,
            WorkerTask::Erase(mode),
            task,
        ),
        WorkerCommand::AssessSequential(path) => v == w && task == (if w.ownership is Active
            && w.selected is Some {
            WorkerTask::Assess(path)
        } else {
            WorkerTask::Rest
        }),
        WorkerCommand::Suspend => v == (DeviceWorker {
            ownership: WorkerOwnershipState::Suspended,
            ..w
        }) && task is Acknowledge,
        WorkerCommand::Resume => v == (DeviceWorker {
            ownership: WorkerOwnershipState::Active,
            ..w
        }) && task is Resumed,
        WorkerCommand::Stop => v == w && task is Stop,
    }
}

impl DeviceWorker {
    /// A worker that owns the device and knows no drive.
    pub fn new() -> (w: DeviceWorker)
        ensures
            w.drives@.len() == 0,
            w.selected is None,
            w.ownership is Active,
    {
        DeviceWorker {
            drives: Vec::new(),
            selected: None,
            ownership: WorkerOwnershipState::Active,
        }
    }

    fn with_device(&self, name: &str, wanted: WorkerTask) -> (task: WorkerTask)
        ensures
            needs_device(*self, name@, wanted, task),
    {
        if !self.ownership.allows_device_access() {
            WorkerTask::Tell(
                WorkerEvent::Status(cat2(name, " rejected: device worker is suspended")),
            )
        } else if self.selected.is_some() {
            wanted
        } else {
            WorkerTask::Rest
        }
    }

    fn choose_drive(&mut self, index: usize) -> (task: WorkerTask)
        ensures
            drive_chosen(*old(self), index, *final(self), task),
    {
        if index >= self.drives.len() {
            return WorkerTask::Refuse(WorkerEvent::Error("选择的磁带机不存在".to_owned()));
        }
        self.selected = Some(self.drives[index].clone());
        if self.ownership.allows_device_access() {
            WorkerTask::Refresh { operation: "select-basic-refresh", anew: true }
        } else {
            WorkerTask::TellAnew(
                WorkerEvent::Status(
                    "Device worker is suspended; no device access performed".to_owned(),
                ),
            )
        }
    }

    /// Takes a command; gives what is to be done for it.
    pub fn command(&mut self, command: WorkerCommand) -> (task: WorkerTask)
        ensures
            worker_commanded(*old(self), command, *final(self), task),
    {
        match command {
            WorkerCommand::Discover => WorkerTask::Discover,
            WorkerCommand::Select(index) => self.choose_drive(index),
            WorkerCommand::Refresh => {
                if !self.ownership.allows_device_access() {
                    WorkerTask::Tell(
                        WorkerEvent::Status(
                            "Refresh rejected: device worker is suspended".to_owned(),
                        ),
                    )
                } else if self.selected.is_some() {
                    WorkerTask::Refresh { operation: "basic-refresh", anew: false }
                } else {
                    WorkerTask::Rest
                }
            },
            WorkerCommand::ReadLtfs => self.with_device("Read LTFS", WorkerTask::ReadLtfs),
            WorkerCommand::Load => self.with_device(
                "Load",
                WorkerTask::Cartridge(CartridgeAction::Load),
            ),
            WorkerCommand::LoadUnthreaded => self.with_device(
                "Load Unthreaded",
                WorkerTask::Cartridge(CartridgeAction::LoadUnthreaded),
            ),
            WorkerCommand::Unthread => self.with_device(
                "Unthread",
                WorkerTask::Cartridge(CartridgeAction::Unthread),
            ),
            WorkerCommand::Unload => self.with_device(
                "Unload",
                WorkerTask::Cartridge(CartridgeAction::Unload),
            ),
            WorkerCommand::Format(options) => self.with_device(
                "Format",
                WorkerTask::Format(options),
            ),
            WorkerCommand::Erase(mode) => self.with_device("Erase", WorkerTask::Erase(mode)),
            WorkerCommand::AssessSequential(path) => {
                if self.ownership.allows_device_access() && self.selected.is_some() {
                    WorkerTask::Assess(path)
                } else {
                    WorkerTask::Rest
                }
            },
            WorkerCommand::Suspend => {
                self.ownership = WorkerOwnershipState::Suspended;
                WorkerTask::Acknowledge
            },
            WorkerCommand::Resume => {
                self.ownership = WorkerOwnershipState::Active;
                WorkerTask::Resumed
            },
            WorkerCommand::Stop => WorkerTask::Stop,
        }
    }

    /// The drives that were found; none is chosen then.
    pub fn discovered(&mut self, drives: Vec<TapeDrive>)
        ensures
            *final(self) == (DeviceWorker { drives, selected: None, ..*old(self) }),
    {
        self.drives = drives;
        self.selected = None;
    }

    /// Whether the channels are sampled now.
    pub fn telemetry_due(&self, elapsed_millis: u64) -> (yes: bool)
        ensures
            yes == (self.ownership is Active && self.selected is Some && elapsed_millis
                >= CHANNEL_SAMPLE_SECONDS * 1000),
    {
        self.ownership.allows_device_access() && self.selected.is_some() && elapsed_millis
            >= CHANNEL_SAMPLE_SECONDS * 1000
    }

    /// How long the worker waits for a command, in milliseconds.
    pub fn wait_millis(&self) -> (millis: u64)
        ensures
            millis == (if self.selected is Some {
                250
            } else {
                60000u64
            }),
    {
        if self.selected.is_some() {
            250
        } else {
            60000
        }
    }
}

/// What is told of an action on the cartridge that the drive took: the cartridge has to be
/// where it was to be.
pub open spec fn cartridge_told(action: CartridgeAction, actual: MediaLifecycle, event: WorkerEvent) -> bool {
    let expected = expected_lifecycle(action);
    match event {
        WorkerEvent::Status(message) => actual == expected && message@ == operation_text(action)
            + " completed: "@ + lifecycle_text(actual),
        WorkerEvent::Error(message) => actual != expected && message@ == operation_text(action)
            + " returned success, but media state is "@ + lifecycle_text(actual)
            + " (expected "@ + lifecycle_text(expected) + ")"@,
        _ => false,
    }
}

/// What is told of an action on the cartridge that the drive took.
pub fn cartridge_outcome(action: CartridgeAction, actual: MediaLifecycle) -> (event: WorkerEvent)
    ensures
        cartridge_told(action, actual, event),
{
    let expected = action.expected();
    if actual == expected {
        WorkerEvent::Status(
            crate::text::cat3(action.operation(), " completed: ", lifecycle_label(actual)),
        )
    } else {
        WorkerEvent::Error(
            cat6(
                action.operation(),
                " returned success, but media state is ",
                lifecycle_label(actual),
                " (expected ",
                lifecycle_label(expected),
                ")",
            ),
        )
    }
}

/// What is told where the device could not be taken.
pub fn lease_refused(operation: &str, error: &str) -> (event: WorkerEvent)
    ensures
        event matches WorkerEvent::Error(message) && message@
            == "Device lease unavailable for "@ + operation@ + ": "@ + error@,
{
    WorkerEvent::Error(cat4("Device lease unavailable for ", operation, ": ", error))
}

/// A worker that has let go of the device does nothing with it, whatever it is asked, until
/// it is told to resume.
pub proof fn suspended_worker_stays_away(
    w: DeviceWorker,
    command: WorkerCommand,
    v: DeviceWorker,
    task: WorkerTask,
)
    requires
        worker_commanded(w, command, v, task),
        !(w.ownership is Active),
    ensures
        !touches_device(task),
        v.ownership is Active ==> command is Resume,
{
}

/// Nothing is done with the device before a drive is chosen.
pub proof fn no_drive_no_access(
    w: DeviceWorker,
    command: WorkerCommand,
    v: DeviceWorker,
    task: WorkerTask,
)
    requires
        worker_commanded(w, command, v, task),
        touches_device(task),
    ensures
        v.selected is Some,
{
}

} // verus!
