//! The keys of the erase page.
use vstd::prelude::*;
use vstd::string::*;

use super::state::{
    device_claimed, selected_device_claimed, Effect, ErasePane, EraseView, Key, Note, Page,
    UiState, WorkerCommand,
};
use crate::app::erase::{mode_name, EraseMode};
use crate::app::snapshot::{DeviceSnapshot, MediaLifecycle};
use crate::device::mtio::write_protected;
use crate::text::cat3;

verus! {

/// One of two letters.
pub open spec fn letter(key: Key, lower: char, upper: char) -> bool {
    key == Key::Char(lower) || key == Key::Char(upper)
}

pub fn is_letter(key: Key, lower: char, upper: char) -> (yes: bool)
    ensures
        yes == letter(key, lower, upper),
{
    key == Key::Char(lower) || key == Key::Char(upper)
}

/// The key leaves a page.
pub open spec fn leaves(key: Key) -> bool {
    letter(key, 'q', 'Q') || key is Esc
}

pub fn is_leaving(key: Key) -> (yes: bool)
    ensures
        yes == leaves(key),
{
    is_letter(key, 'q', 'Q') || key == Key::Esc
}

/// The key moves up.
pub open spec fn moves_up(key: Key) -> bool {
    key is Up || key == Key::Char('k')
}

/// The key moves down.
pub open spec fn moves_down(key: Key) -> bool {
    key is Down || key == Key::Char('j')
}

pub fn is_up(key: Key) -> (yes: bool)
    ensures
        yes == moves_up(key),
{
    key == Key::Up || key == Key::Char('k')
}

pub fn is_down(key: Key) -> (yes: bool)
    ensures
        yes == moves_down(key),
{
    key == Key::Down || key == Key::Char('j')
}

/// Only the status is another.
pub open spec fn only_tells(s: UiState, text: Seq<char>, t: UiState) -> bool {
    t == (UiState { note: Note { status: t.note.status, ..s.note }, ..s }) && t.note.status@
        == text
}

/// The cartridge that is shown is write protected.
pub open spec fn protected(snapshot: DeviceSnapshot) -> bool {
    match snapshot.media {
        Some(media) => match media.tape_status {
            Some(status) => write_protected(status),
            None => false,
        },
        None => false,
    }
}

pub fn is_protected(snapshot: &DeviceSnapshot) -> (yes: bool)
    ensures
        yes == protected(*snapshot),
{
    match &snapshot.media {
        Some(media) => match &media.tape_status {
            Some(status) => status.is_write_protected(),
            None => false,
        },
        None => false,
    }
}

/// Why the cartridge that is shown cannot be erased.
pub open spec fn erase_refusal(s: UiState) -> Option<Seq<char>> {
    if device_claimed(s) {
        Some("Erase blocked: detached operation owns this drive"@)
    } else {
        match s.device.snapshot {
            None => Some("Erase requires a device snapshot"@),
            Some(snapshot) => if !(snapshot.lifecycle is LoadedThreaded) {
                Some("Erase requires loaded / threaded media"@)
            } else if protected(snapshot) {
                Some("Erase blocked: cartridge is write protected"@)
            } else {
                None
            },
        }
    }
}

/// The erase page is opened, or it is told why not.
pub open spec fn erase_opened(s: UiState, t: UiState) -> bool {
    match erase_refusal(s) {
        Some(text) => only_tells(s, text, t),
        None => t == (UiState {
            page: Page::Erase,
            erase: ErasePane {
                view: EraseView::SelectMode,
                mode: EraseMode::Short,
                message: t.erase.message,
                progress: None,
                result: None,
            },
            ..s
        }) && t.erase.message@ == "Select an erase behavior and review its guarantees"@,
    }
}

/// Opens the erase page.
pub fn open_erase_workflow(state: &mut UiState)
    ensures
        erase_opened(*old(state), *final(state)),
{
    if selected_device_claimed(state) {
        state.note.status = "Erase blocked: detached operation owns this drive".to_owned();
        return;
    }
    let refusal = match &state.device.snapshot {
        None => Some("Erase requires a device snapshot"),
        Some(snapshot) => if snapshot.lifecycle != MediaLifecycle::LoadedThreaded {
            Some("Erase requires loaded / threaded media")
        } else if is_protected(snapshot) {
            Some("Erase blocked: cartridge is write protected")
        } else {
            None
        },
    };
    match refusal {
        Some(text) => {
            state.note.status = text.to_owned();
        },
        None => {
            state.erase = ErasePane {
                view: EraseView::SelectMode,
                mode: EraseMode::Short,
                message: "Select an erase behavior and review its guarantees".to_owned(),
                progress: None,
                result: None,
            };
            state.page = Page::Erase;
        },
    }
}

/// The mode above.
pub open spec fn mode_above(mode: EraseMode) -> EraseMode {
    match mode {
        EraseMode::Short => EraseMode::MinimumPartitionLong,
        EraseMode::MinimumPartitionLong => EraseMode::Long,
        EraseMode::Long => EraseMode::Short,
    }
}

/// The mode below.
pub open spec fn mode_below(mode: EraseMode) -> EraseMode {
    match mode {
        EraseMode::Short => EraseMode::Long,
        EraseMode::Long => EraseMode::MinimumPartitionLong,
        EraseMode::MinimumPartitionLong => EraseMode::Short,
    }
}

/// The mode that a key chooses.
pub open spec fn mode_chosen(mode: EraseMode, key: Key) -> EraseMode {
    if moves_up(key) {
        mode_above(mode)
    } else if moves_down(key) {
        mode_below(mode)
    } else if key == Key::Char('1') {
        EraseMode::Short
    } else if key == Key::Char('2') {
        EraseMode::Long
    } else if key == Key::Char('3') {
        EraseMode::MinimumPartitionLong
    } else {
        mode
    }
}

fn choose_mode(mode: EraseMode, key: Key) -> (chosen: EraseMode)
    ensures
        chosen == mode_chosen(mode, key),
{
    if is_up(key) {
        match mode {
            EraseMode::Short => EraseMode::MinimumPartitionLong,
            EraseMode::MinimumPartitionLong => EraseMode::Long,
            EraseMode::Long => EraseMode::Short,
        }
    } else if is_down(key) {
        match mode {
            EraseMode::Short => EraseMode::Long,
            EraseMode::Long => EraseMode::MinimumPartitionLong,
            EraseMode::MinimumPartitionLong => EraseMode::Short,
        }
    } else if key == Key::Char('1') {
        EraseMode::Short
    } else if key == Key::Char('2') {
        EraseMode::Long
    } else if key == Key::Char('3') {
        EraseMode::MinimumPartitionLong
    } else {
        mode
    }
}

/// What a key does on the erase page.
pub open spec fn erase_key(s: UiState, key: Key, t: UiState, effect: Option<Effect>) -> bool {
    let same = t == s && effect is None;
    match s.erase.view {
        EraseView::Running => only_tells(
            s,
            "Erase is running; TUI exit and device commands are disabled"@,
            t,
        ) && effect is None,
        EraseView::Complete => if leaves(key) {
            t == (UiState { page: Page::Overview, ..s }) && effect is None
        } else {
            same
        },
        EraseView::Confirm => if letter(key, 'y', 'Y') {
            t == (UiState {
                erase: ErasePane {
                    view: EraseView::Running,
                    progress: None,
                    message: t.erase.message,
                    ..s.erase
                },
                ..s
            }) && t.erase.message@ == "Starting destructive "@ + mode_name(s.erase.mode)
                + " erase"@ && effect == Some(Effect::Device(WorkerCommand::Erase(s.erase.mode)))
        } else if letter(key, 'n', 'N') || key is Esc {
            t == (UiState {
                erase: ErasePane { view: EraseView::SelectMode, ..s.erase },
                ..s
            }) && effect is None
        } else {
            same
        },
        EraseView::SelectMode => if leaves(key) {
            t == (UiState { page: Page::Overview, ..s }) && effect is None
        } else if key is Enter {
            t == (UiState {
                erase: ErasePane {
                    view: EraseView::Confirm,
                    message: t.erase.message,
                    ..s.erase
                },
                ..s
            }) && t.erase.message@ == "FINAL CONFIRMATION: "@ + mode_name(s.erase.mode)
                + " erase destroys access to existing tape data"@ && effect is None
        } else {
            t == (UiState {
                erase: ErasePane { mode: mode_chosen(s.erase.mode, key), ..s.erase },
                ..s
            }) && effect is None
        },
    }
}

/// Takes a key on the erase page.
pub fn handle_erase_key(state: &mut UiState, key: Key) -> (effect: Option<Effect>)
    ensures
        erase_key(*old(state), key, *final(state), effect),
{
    match state.erase.view {
        EraseView::Running => {
            state.note.status =
            "Erase is running; TUI exit and device commands are disabled".to_owned();
            None
        },
        EraseView::Complete => {
            if is_leaving(key) {
                state.page = Page::Overview;
            }
            None
        },
        EraseView::Confirm => {
            if is_letter(key, 'y', 'Y') {
                state.erase.view = EraseView::Running;
                state.erase.progress = None;
                state.erase.message = cat3(
                    "Starting destructive ",
                    state.erase.mode.cli_name(),
                    " erase",
                );
                Some(Effect::Device(WorkerCommand::Erase(state.erase.mode)))
            } else {
                if is_letter(key, 'n', 'N') || key == Key::Esc {
                    state.erase.view = EraseView::SelectMode;
                }
                None
            }
        },
        EraseView::SelectMode => {
            if is_leaving(key) {
                state.page = Page::Overview;
            } else if key == Key::Enter {
                state.erase.view = EraseView::Confirm;
                state.erase.message = cat3(
                    "FINAL CONFIRMATION: ",
                    state.erase.mode.cli_name(),
                    " erase destroys access to existing tape data",
                );
            } else {
                state.erase.mode = choose_mode(state.erase.mode, key);
            }
            None
        },
    }
}

/// The worker of the device did not take an erase.
pub fn erase_not_taken(state: &mut UiState)
    ensures
        *final(state) == (UiState {
            erase: ErasePane {
                view: EraseView::Complete,
                message: final(state).erase.message,
                ..old(state).erase
            },
            ..*old(state)
        }),
        final(state).erase.message@ == "ERASE FAILED: device worker is unavailable"@,
{
    state.erase.view = EraseView::Complete;
    state.erase.message = "ERASE FAILED: device worker is unavailable".to_owned();
}

/// A cartridge is erased only once the user has confirmed it, in the mode that was shown.
pub proof fn erase_needs_confirmation(s: UiState, key: Key, t: UiState, effect: Option<Effect>)
    requires
        erase_key(s, key, t, effect),
        effect is Some,
    ensures
        s.erase.view is Confirm,
        letter(key, 'y', 'Y'),
        effect == Some(Effect::Device(WorkerCommand::Erase(s.erase.mode))),
{
}

/// While an erase runs no key leaves the page or the program.
pub proof fn running_erase_holds_the_page(s: UiState, key: Key, t: UiState, effect: Option<Effect>)
    requires
        erase_key(s, key, t, effect),
        s.erase.view is Running,
    ensures
        t.page == s.page,
        t.quit == s.quit,
        t.erase == s.erase,
        effect is None,
{
}

} // verus!
