//! The keys of the page on which a read is prepared.
use vstd::prelude::*;
use vstd::string::*;

use super::browse::{
    at_mount_point, ltfs_parent, open_read_browser, parent_of_ltfs, read_browser_opened,
    selection_toggled, shown_index, toggle_tape_selection, index_shown,
};
use super::erase_keys::{is_down, is_letter, is_up, letter, moves_down, moves_up, only_tells};
use super::source_keys::{ask_for, asks_for, nothing, way_up};
use super::state::{
    one_down, one_up, step_down, step_up, Effect, FileCommand, FilesPane, Key, Note, Page,
    ReadPane, ReadPlan, ReadView, StartPane, UiState,
};
use crate::app::mounts::BrowserEntryKind;
use crate::paths::parent;
use crate::text::{cat4, decimal, decimal_spec, same};

verus! {

/// One level back.
pub open spec fn read_back(s: UiState) -> UiState {
    let b = UiState { start: StartPane { confirm: false, ..s.start }, ..s };
    match s.read.view {
        ReadView::TapeBrowser => UiState { page: Page::Ltfs, ..b },
        ReadView::Plan => UiState {
            read: ReadPane { view: ReadView::TapeBrowser, plan: None, ..s.read },
            ..b
        },
        ReadView::Mounts => UiState { read: ReadPane { view: ReadView::Plan, ..s.read }, ..b },
        ReadView::Destination => UiState {
            read: ReadPane { view: ReadView::Mounts, ..s.read },
            files: FilesPane { index: 0, ..s.files },
            ..b
        },
        ReadView::Confirm => UiState {
            read: ReadPane { view: ReadView::Destination, destination: None, ..s.read },
            ..b
        },
    }
}

/// Goes one level back.
pub fn back_read_level(state: &mut UiState)
    ensures
        *final(state) == read_back(*old(state)),
{
    state.start.confirm = false;
    match state.read.view {
        ReadView::TapeBrowser => {
            state.page = Page::Ltfs;
        },
        ReadView::Plan => {
            state.read.view = ReadView::TapeBrowser;
            state.read.plan = None;
        },
        ReadView::Mounts => {
            state.read.view = ReadView::Plan;
        },
        ReadView::Destination => {
            state.read.view = ReadView::Mounts;
            state.files.index = 0;
        },
        ReadView::Confirm => {
            state.read.view = ReadView::Destination;
            state.read.destination = None;
        },
    }
}

/// A key among the entries of the volume.
pub open spec fn tape_key(s: UiState, key: Key, t: UiState, effect: Option<Effect>) -> bool {
    let k = s.files.index as int;
    let there = k < s.read.entries@.len();
    let entry = s.read.entries@[k];
    if key is Enter && there && entry.directory {
        read_browser_opened(s, entry.path@, t) && effect is None
    } else if key == Key::Char(' ') && there {
        selection_toggled(s, entry.path, t) && effect is None
    } else if letter(key, 'a', 'A') {
        selection_toggled(s, s.read.directory, t) && effect is None
    } else if letter(key, 's', 'S') {
        if shown_index(s) is None {
            only_tells(s, "Trusted LTFS index is unavailable"@, t) && effect is None
        } else {
            t == s && effect == Some(Effect::PlanRead)
        }
    } else if key is Backspace || key is Esc {
        if s.read.directory@ == "/"@ {
            t == (UiState { page: Page::Ltfs, ..s }) && effect is None
        } else {
            read_browser_opened(s, ltfs_parent(s.read.directory@), t) && effect is None
        }
    } else {
        nothing(s, t, effect)
    }
}

/// A key on the plan.
pub open spec fn read_plan_key(s: UiState, key: Key, t: UiState, effect: Option<Effect>) -> bool {
    if key is Enter {
        t == (UiState { files: FilesPane { busy: true, ..s.files }, ..s }) && effect == Some(
            Effect::File(FileCommand::ListMounts),
        )
    } else if key is Esc {
        t == (UiState {
            read: ReadPane { view: ReadView::TapeBrowser, plan: None, ..s.read },
            ..s
        }) && effect is None
    } else {
        nothing(s, t, effect)
    }
}

/// A key on the list of mounts.
pub open spec fn read_mounts_key(s: UiState, key: Key, t: UiState, effect: Option<Effect>) -> bool {
    let k = s.files.index as int;
    if key is Enter && k < s.files.mounts@.len() {
        asks_for(s, s.files.mounts@[k].mount_point@, t, effect)
    } else if key is Esc {
        t == (UiState { read: ReadPane { view: ReadView::Plan, ..s.read }, ..s })
            && effect is None
    } else {
        nothing(s, t, effect)
    }
}

/// A key in the host directory that is read to.
pub open spec fn read_destination_key(s: UiState, key: Key, t: UiState, effect: Option<Effect>) -> bool {
    let k = s.files.index as int;
    if key is Enter && k < s.files.entries@.len() && s.files.entries@[k].kind is Directory {
        asks_for(s, s.files.entries@[k].path@, t, effect)
    } else if letter(key, 's', 'S') && s.files.path is Some {
        t == (UiState {
            read: ReadPane { destination: s.files.path, view: ReadView::Confirm, ..s.read },
            start: StartPane { confirm: false, ..s.start },
            note: Note { status: t.note.status, ..s.note },
            ..s
        }) && t.note.status@ == "Review the complete Read Plan before starting"@ && effect is None
    } else if key is Backspace || key is Esc {
        way_up(
            s,
            UiState {
                read: ReadPane { view: ReadView::Mounts, ..s.read },
                files: FilesPane { index: 0, ..s.files },
                ..s
            },
            t,
            effect,
        )
    } else {
        nothing(s, t, effect)
    }
}

/// A key on the last page before a read.
pub open spec fn read_confirm_key(s: UiState, key: Key, t: UiState, effect: Option<Effect>) -> bool {
    let confirmed = s.start.confirm;
    if key is Enter {
        t == (UiState { start: StartPane { confirm: true, ..s.start }, ..s }) && effect is None
    } else if letter(key, 'y', 'Y') && confirmed {
        t == s && effect == Some(Effect::StartRead)
    } else if (letter(key, 'n', 'N') || key is Esc) && confirmed {
        t == (UiState { start: StartPane { confirm: false, ..s.start }, ..s }) && effect is None
    } else if key is Esc {
        t == (UiState {
            read: ReadPane { view: ReadView::Destination, destination: None, ..s.read },
            ..s
        }) && effect is None
    } else {
        nothing(s, t, effect)
    }
}

/// How many entries the view has.
pub open spec fn read_length(s: UiState) -> nat {
    match s.read.view {
        ReadView::TapeBrowser => s.read.entries@.len(),
        ReadView::Mounts => s.files.mounts@.len(),
        ReadView::Destination => s.files.entries@.len(),
        ReadView::Plan => 0,
        ReadView::Confirm => 0,
    }
}

/// What a key does on the page on which a read is prepared.
pub open spec fn read_key(s: UiState, key: Key, t: UiState, effect: Option<Effect>) -> bool {
    if s.files.busy {
        nothing(s, t, effect)
    } else if letter(key, 'q', 'Q') {
        t == read_back(s) && effect is None
    } else if moves_up(key) {
        t == (UiState { files: FilesPane { index: one_up(s.files.index), ..s.files }, ..s })
            && effect is None
    } else if moves_down(key) {
        t == (UiState {
            files: FilesPane { index: one_down(s.files.index, read_length(s)), ..s.files },
            ..s
        }) && effect is None
    } else {
        match s.read.view {
            ReadView::TapeBrowser => tape_key(s, key, t, effect),
            ReadView::Plan => read_plan_key(s, key, t, effect),
            ReadView::Mounts => read_mounts_key(s, key, t, effect),
            ReadView::Destination => read_destination_key(s, key, t, effect),
            ReadView::Confirm => read_confirm_key(s, key, t, effect),
        }
    }
}

fn on_tape(state: &mut UiState, key: Key) -> (effect: Option<Effect>)
    ensures
        tape_key(*old(state), key, *final(state), effect),
{
    let k: usize = state.files.index;
    let there = k < state.read.entries.len();
    if key == Key::Enter && there && state.read.entries[k].directory {
        let path = state.read.entries[k].path.clone();
        open_read_browser(state, path.as_str());
        return None;
    }
    if key == Key::Char(' ') && there {
        let path = state.read.entries[k].path.clone();
        toggle_tape_selection(state, path);
        return None;
    }
    if is_letter(key, 'a', 'A') {
        let path = state.read.directory.clone();
        toggle_tape_selection(state, path);
        return None;
    }
    if is_letter(key, 's', 'S') {
        if index_shown(state).is_none() {
            state.note.status = "Trusted LTFS index is unavailable".to_owned();
            return None;
        }
        return Some(Effect::PlanRead);
    }
    if key == Key::Backspace || key == Key::Esc {
        if same(state.read.directory.as_str(), "/") {
            state.page = Page::Ltfs;
        } else {
            let up = parent_of_ltfs(state.read.directory.as_str());
            open_read_browser(state, up.as_str());
        }
    }
    None
}

fn on_destination(state: &mut UiState, key: Key) -> (effect: Option<Effect>)
    ensures
        read_destination_key(*old(state), key, *final(state), effect),
{
    let k: usize = state.files.index;
    if key == Key::Enter && k < state.files.entries.len() && state.files.entries[k].kind
        == BrowserEntryKind::Directory {
        let path = state.files.entries[k].path.clone();
        return ask_for(state, path);
    }
    if is_letter(key, 's', 'S') && state.files.path.is_some() {
        state.read.destination = crate::text::clone_opt(&state.files.path);
        state.start.confirm = false;
        state.read.view = ReadView::Confirm;
        state.note.status = "Review the complete Read Plan before starting".to_owned();
        return None;
    }
    if key == Key::Backspace || key == Key::Esc {
        let up = match &state.files.path {
            None => {
                return None;
            },
            Some(current) => if at_mount_point(&state.files.mounts, current.as_str()) {
                None
            } else {
                match parent(current.as_str()) {
                    Some(p) => Some(p),
                    None => {
                        return None;
                    },
                }
            },
        };
        return match up {
            Some(p) => ask_for(state, p),
            None => {
                state.read.view = ReadView::Mounts;
                state.files.index = 0;
                None
            },
        };
    }
    None
}

fn on_plain_view(state: &mut UiState, key: Key) -> (effect: Option<Effect>)
    requires
        old(state).read.view is Plan || old(state).read.view is Mounts
            || old(state).read.view is Confirm,
    ensures
        match old(state).read.view {
            ReadView::Plan => read_plan_key(*old(state), key, *final(state), effect),
            ReadView::Mounts => read_mounts_key(*old(state), key, *final(state), effect),
            _ => read_confirm_key(*old(state), key, *final(state), effect),
        },
{
    match state.read.view {
        ReadView::Plan => {
            if key == Key::Enter {
                state.files.busy = true;
                return Some(Effect::File(FileCommand::ListMounts));
            }
            if key == Key::Esc {
                state.read.view = ReadView::TapeBrowser;
                state.read.plan = None;
            }
            None
        },
        ReadView::Mounts => {
            let k: usize = state.files.index;
            if key == Key::Enter && k < state.files.mounts.len() {
                let path = state.files.mounts[k].mount_point.clone();
                return ask_for(state, path);
            }
            if key == Key::Esc {
                state.read.view = ReadView::Plan;
            }
            None
        },
        _ => {
            if key == Key::Enter {
                state.start.confirm = true;
            } else if is_letter(key, 'y', 'Y') && state.start.confirm {
                return Some(Effect::StartRead);
            } else if (is_letter(key, 'n', 'N') || key == Key::Esc) && state.start.confirm {
                state.start.confirm = false;
            } else if key == Key::Esc {
                state.read.view = ReadView::Destination;
                state.read.destination = None;
            }
            None
        },
    }
}

/// Takes a key on the page on which a read is prepared.
pub fn handle_read_key(state: &mut UiState, key: Key) -> (effect: Option<Effect>)
    ensures
        read_key(*old(state), key, *final(state), effect),
{
    if state.files.busy {
        return None;
    }
    if is_letter(key, 'q', 'Q') {
        back_read_level(state);
        return None;
    }
    if is_up(key) {
        state.files.index = step_up(state.files.index);
        return None;
    }
    if is_down(key) {
        let length: usize = match state.read.view {
            ReadView::TapeBrowser => state.read.entries.len(),
            ReadView::Mounts => state.files.mounts.len(),
            ReadView::Destination => state.files.entries.len(),
            ReadView::Plan => 0,
            ReadView::Confirm => 0,
        };
        state.files.index = step_down(state.files.index, length);
        return None;
    }
    match state.read.view {
        ReadView::TapeBrowser => on_tape(state, key),
        ReadView::Destination => on_destination(state, key),
        _ => on_plain_view(state, key),
    }
}

/// What came of counting the files that are read; `size` is the payload in words.
pub fn read_planned(state: &mut UiState, reply: Result<ReadPlan, String>, size: &str)
    ensures
        match reply {
            Ok(plan) => *final(state) == (UiState {
                read: ReadPane { plan: Some(plan), view: ReadView::Plan, ..old(state).read },
                note: Note { status: final(state).note.status, ..old(state).note },
                ..*old(state)
            }) && final(state).note.status@ == "Read Plan frozen: "@ + decimal_spec(
                plan.files as nat,
            ) + " files, "@ + size@,
            Err(error) => *final(state) == (UiState {
                note: Note { status: error, ..old(state).note },
                ..*old(state)
            }),
        },
{
    match reply {
        Ok(plan) => {
            state.note.status = cat4(
                "Read Plan frozen: ",
                decimal(plan.files as u64).as_str(),
                " files, ",
                size,
            );
            state.read.plan = Some(plan);
            state.read.view = ReadView::Plan;
        },
        Err(error) => {
            state.note.status = error;
        },
    }
}

/// A read starts only from its last page, once the user has confirmed it.
pub proof fn read_needs_confirmation(s: UiState, key: Key, t: UiState, effect: Option<Effect>)
    requires
        read_key(s, key, t, effect),
        effect == Some(Effect::StartRead),
    ensures
        s.read.view is Confirm,
        s.start.confirm,
        letter(key, 'y', 'Y'),
{
}

} // verus!
