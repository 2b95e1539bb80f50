//! The keys of the page for work on the tape as a sequence of records.
use vstd::prelude::*;
use vstd::string::*;

use super::browse::{at_mount_point, is_mount_point};
use super::erase_keys::{
    is_down, is_leaving, is_letter, is_up, leaves, letter, moves_down, moves_up, only_tells,
};
use super::format_keys::{pop, popped};
use super::source_keys::{ask_for, asks_for, nothing};
use super::state::{
    one_down, one_up, step_down, step_up, Effect, FileCommand, FilesPane, Key, Note, Page,
    RawMamStatus, SequentialMode, SequentialPane, SequentialView, StartPane, UiState,
    WorkerCommand,
};
use crate::app::format::{is_control, is_control_char};
use crate::app::mounts::BrowserEntryKind;
use crate::paths::{join_path, join_spec, parent, parent_spec};
use crate::text::{cat2, opt_view};

verus! {

/// The mode that a digit chooses.
pub open spec fn mode_of(key: Key) -> Option<SequentialMode> {
    if key == Key::Char('1') {
        Some(SequentialMode::RawWrite)
    } else if key == Key::Char('2') {
        Some(SequentialMode::TarWrite)
    } else if key == Key::Char('3') {
        Some(SequentialMode::RawRead)
    } else if key == Key::Char('4') {
        Some(SequentialMode::TarRead)
    } else {
        None
    }
}

fn mode_for(key: Key) -> (mode: Option<SequentialMode>)
    ensures
        mode == mode_of(key),
{
    if key == Key::Char('1') {
        Some(SequentialMode::RawWrite)
    } else if key == Key::Char('2') {
        Some(SequentialMode::TarWrite)
    } else if key == Key::Char('3') {
        Some(SequentialMode::RawRead)
    } else if key == Key::Char('4') {
        Some(SequentialMode::TarRead)
    } else {
        None
    }
}

/// The mode that was chosen writes to the tape.
pub open spec fn writing(s: UiState) -> bool {
    s.sequential.mode is Some && s.sequential.mode->0.writes()
}

fn is_writing(s: &UiState) -> (yes: bool)
    ensures
        yes == writing(*s),
{
    match s.sequential.mode {
        Some(mode) => mode.is_write(),
        None => false,
    }
}

/// A key on the menu.
pub open spec fn menu_key(s: UiState, key: Key, t: UiState, effect: Option<Effect>) -> bool {
    if leaves(key) {
        t == (UiState { page: Page::Overview, ..s }) && effect is None
    } else if mode_of(key) is Some {
        t == (UiState {
            sequential: SequentialPane {
                mode: mode_of(key),
                path: None,
                overwrite_ack: false,
                ..s.sequential
            },
            start: StartPane { read_back_verify: false, ..s.start },
            files: FilesPane { busy: true, ..s.files },
            ..s
        }) && effect == Some(Effect::File(FileCommand::ListMounts))
    } else {
        nothing(s, t, effect)
    }
}

/// A key on the list of mounts.
pub open spec fn sequential_mounts_key(s: UiState, key: Key, t: UiState, effect: Option<Effect>) -> bool {
    let k = s.files.index as int;
    if moves_up(key) {
        t == (UiState { files: FilesPane { index: one_up(s.files.index), ..s.files }, ..s })
            && effect is None
    } else if moves_down(key) {
        t == (UiState {
            files: FilesPane {
                index: one_down(s.files.index, s.files.mounts@.len()),
                ..s.files
            },
            ..s
        }) && effect is None
    } else if key is Enter && k < s.files.mounts@.len() {
        asks_for(s, s.files.mounts@[k].mount_point@, t, effect)
    } else if leaves(key) {
        t == (UiState {
            sequential: SequentialPane { view: SequentialView::Menu, ..s.sequential },
            ..s
        }) && effect is None
    } else {
        nothing(s, t, effect)
    }
}

/// The mode can write an entry of that kind.
pub open spec fn source_allowed(mode: Option<SequentialMode>, kind: BrowserEntryKind) -> bool {
    match mode {
        Some(SequentialMode::RawWrite) => kind is File,
        Some(SequentialMode::TarWrite) => kind is File || kind is Directory || kind is Symlink,
        _ => false,
    }
}

fn is_allowed(mode: Option<SequentialMode>, kind: BrowserEntryKind) -> (yes: bool)
    ensures
        yes == source_allowed(mode, kind),
{
    match mode {
        Some(SequentialMode::RawWrite) => kind == BrowserEntryKind::File,
        Some(SequentialMode::TarWrite) => kind == BrowserEntryKind::File || kind
            == BrowserEntryKind::Directory || kind == BrowserEntryKind::Symlink,
        _ => false,
    }
}

/// The cartridge and the room on the host are looked at before the work.
pub open spec fn assessed(s: UiState, t: UiState) -> bool {
    t == (UiState {
        sequential: SequentialPane {
            path: t.sequential.path,
            mam: None,
            space: None,
            ..s.sequential
        },
        note: Note { busy: t.note.busy, ..s.note },
        ..s
    }) && t.note.busy is Some && t.note.busy->0@ == "Reading MAM and checking destination"@
}

/// A key in a host directory.
pub open spec fn sequential_directory_key(s: UiState, key: Key, t: UiState, effect: Option<Effect>) -> bool {
    let k = s.files.index as int;
    let there = k < s.files.entries@.len();
    let entry = s.files.entries@[k];
    if moves_up(key) {
        t == (UiState { files: FilesPane { index: one_up(s.files.index), ..s.files }, ..s })
            && effect is None
    } else if moves_down(key) {
        t == (UiState {
            files: FilesPane {
                index: one_down(s.files.index, s.files.entries@.len()),
                ..s.files
            },
            ..s
        }) && effect is None
    } else if key is Enter && there && entry.kind is Directory {
        asks_for(s, entry.path@, t, effect)
    } else if key == Key::Char(' ') && writing(s) && there {
        if source_allowed(s.sequential.mode, entry.kind) {
            assessed(s, t) && t.sequential.path == Some(entry.path) && effect == Some(
                Effect::Device(WorkerCommand::AssessSequential(None)),
            )
        } else {
            only_tells(s, "This source type is unavailable for the selected mode"@, t)
                && effect is None
        }
    } else if letter(key, 's', 'S') && s.sequential.mode is Some && !writing(s)
        && s.files.path is Some {
        t == (UiState {
            sequential: SequentialPane {
                path: s.files.path,
                filename: t.sequential.filename,
                view: SequentialView::Filename,
                ..s.sequential
            },
            ..s
        }) && t.sequential.filename@ == "tapecpy-recovery."@ + (if s.sequential.mode->0 is TarRead {
            "tar"@
        } else {
            "raw"@
        }) && effect is None
    } else if key is Backspace || key is Esc {
        if s.files.path is Some && parent_spec(s.files.path->0@) is Some && !is_mount_point(
            s.files.mounts@,
            s.files.path->0@,
        ) {
            asks_for(s, parent_spec(s.files.path->0@)->0, t, effect)
        } else {
            t == (UiState {
                sequential: SequentialPane { view: SequentialView::Mounts, ..s.sequential },
                ..s
            }) && effect is None
        }
    } else if letter(key, 'q', 'Q') {
        t == (UiState {
            sequential: SequentialPane { view: SequentialView::Mounts, ..s.sequential },
            ..s
        }) && effect is None
    } else {
        nothing(s, t, effect)
    }
}

/// A key while the name of an image is typed.
pub open spec fn filename_key(s: UiState, key: Key, t: UiState, effect: Option<Effect>) -> bool {
    let q = s.sequential;
    match key {
        Key::Backspace => t == (UiState {
            sequential: SequentialPane { filename: t.sequential.filename, ..q },
            ..s
        }) && t.sequential.filename@ == popped(q.filename@) && effect is None,
        Key::Char(c) => if !is_control(c) && c != '/' {
            t == (UiState {
                sequential: SequentialPane { filename: t.sequential.filename, ..q },
                ..s
            }) && t.sequential.filename@ == q.filename@.push(c) && effect is None
        } else {
            nothing(s, t, effect)
        },
        Key::Enter => if q.filename@.len() > 0 && q.path is Some {
            t == s && (match effect {
                Some(Effect::CheckOutput(path)) => path@ == join_spec(q.path->0@, q.filename@),
                _ => false,
            })
        } else {
            nothing(s, t, effect)
        },
        Key::Esc => t == (UiState {
            sequential: SequentialPane { view: SequentialView::Directory, ..q },
            ..s
        }) && effect is None,
        _ => nothing(s, t, effect),
    }
}

/// A key on the last page.
pub open spec fn sequential_confirm_key(s: UiState, key: Key, t: UiState, effect: Option<Effect>) -> bool {
    if letter(key, 'a', 'A') && writing(s) {
        t == (UiState {
            sequential: SequentialPane {
                overwrite_ack: !s.sequential.overwrite_ack,
                ..s.sequential
            },
            ..s
        }) && effect is None
    } else if letter(key, 'v', 'V') && writing(s) {
        t == (UiState {
            start: StartPane { read_back_verify: !s.start.read_back_verify, ..s.start },
            ..s
        }) && effect is None
    } else if letter(key, 'y', 'Y') {
        match sequential_refusal(s) {
            Some(text) => only_tells(s, text, t) && effect is None,
            None => t == s && effect == Some(Effect::StartSequential),
        }
    } else if leaves(key) {
        t == (UiState {
            sequential: SequentialPane {
                view: SequentialView::Menu,
                path: None,
                ..s.sequential
            },
            ..s
        }) && effect is None
    } else {
        nothing(s, t, effect)
    }
}

/// Why sequential work does not start: what is on the tape may be destroyed only where
/// the user has said so, and an image is made only where there is room for it.
pub open spec fn sequential_refusal(s: UiState) -> Option<Seq<char>> {
    let q = s.sequential;
    if s.device.snapshot is None || q.mode is None || q.path is None {
        Some("Sequential operation is incomplete"@)
    } else if writing(s) {
        let risky = q.mam is None || q.mam->0.status is LtfsDetected || q.mam->0.status is Unknown;
        if risky && !q.overwrite_ack {
            Some("Press A to acknowledge the reported MAM overwrite risk first"@)
        } else {
            None
        }
    } else if q.space is None || !q.space->0.sufficient {
        Some("Recovery blocked: destination capacity requirement is not satisfied"@)
    } else {
        None
    }
}

fn find_refusal(s: &UiState) -> (text: Option<String>)
    ensures
        opt_view(text) == sequential_refusal(*s),
{
    if s.device.snapshot.is_none() || s.sequential.mode.is_none() || s.sequential.path.is_none() {
        return Some("Sequential operation is incomplete".to_owned());
    }
    if is_writing(s) {
        let risky = match &s.sequential.mam {
            None => true,
            Some(mam) => mam.status == RawMamStatus::LtfsDetected || mam.status
                == RawMamStatus::Unknown,
        };
        if risky && !s.sequential.overwrite_ack {
            return Some("Press A to acknowledge the reported MAM overwrite risk first".to_owned());
        }
        return None;
    }
    let enough = match s.sequential.space {
        Some(space) => space.sufficient,
        None => false,
    };
    if !enough {
        return Some(
            "Recovery blocked: destination capacity requirement is not satisfied".to_owned(),
        );
    }
    None
}

/// What a key does on the page for sequential work.
pub open spec fn sequential_key(s: UiState, key: Key, t: UiState, effect: Option<Effect>) -> bool {
    if s.files.busy {
        nothing(s, t, effect)
    } else {
        match s.sequential.view {
            SequentialView::Menu => menu_key(s, key, t, effect),
            SequentialView::Mounts => sequential_mounts_key(s, key, t, effect),
            SequentialView::Directory => sequential_directory_key(s, key, t, effect),
            SequentialView::Filename => filename_key(s, key, t, effect),
            SequentialView::Confirm => sequential_confirm_key(s, key, t, effect),
        }
    }
}

fn on_menu(state: &mut UiState, key: Key) -> (effect: Option<Effect>)
    ensures
        menu_key(*old(state), key, *final(state), effect),
{
    if is_leaving(key) {
        state.page = Page::Overview;
        return None;
    }
    match mode_for(key) {
        Some(mode) => {
            state.sequential.mode = Some(mode);
            state.sequential.path = None;
            state.sequential.overwrite_ack = false;
            state.start.read_back_verify = false;
            state.files.busy = true;
            Some(Effect::File(FileCommand::ListMounts))
        },
        None => None,
    }
}

fn on_mounts(state: &mut UiState, key: Key) -> (effect: Option<Effect>)
    ensures
        sequential_mounts_key(*old(state), key, *final(state), effect),
{
    let k: usize = state.files.index;
    if is_up(key) {
        state.files.index = step_up(k);
        return None;
    }
    if is_down(key) {
        state.files.index = step_down(k, state.files.mounts.len());
        return None;
    }
    if key == Key::Enter && k < state.files.mounts.len() {
        let path = state.files.mounts[k].mount_point.clone();
        return ask_for(state, path);
    }
    if is_leaving(key) {
        state.sequential.view = SequentialView::Menu;
    }
    None
}

fn on_directory(state: &mut UiState, key: Key) -> (effect: Option<Effect>)
    ensures
        sequential_directory_key(*old(state), key, *final(state), effect),
{
    let k: usize = state.files.index;
    let there = k < state.files.entries.len();
    let kind = if there {
        state.files.entries[k].kind
    } else {
        BrowserEntryKind::Other
    };
    if is_up(key) {
        state.files.index = step_up(k);
        return None;
    }
    if is_down(key) {
        state.files.index = step_down(k, state.files.entries.len());
        return None;
    }
    if key == Key::Enter && there && kind == BrowserEntryKind::Directory {
        let path = state.files.entries[k].path.clone();
        return ask_for(state, path);
    }
    if key == Key::Char(' ') && is_writing(state) && there {
        if is_allowed(state.sequential.mode, kind) {
            state.sequential.path = Some(state.files.entries[k].path.clone());
            state.sequential.mam = None;
            state.sequential.space = None;
            state.note.busy = Some("Reading MAM and checking destination");
            return Some(Effect::Device(WorkerCommand::AssessSequential(None)));
        }
        state.note.status = "This source type is unavailable for the selected mode".to_owned();
        return None;
    }
    if is_letter(key, 's', 'S') && state.sequential.mode.is_some() && !is_writing(state)
        && state.files.path.is_some() {
        match state.sequential.mode {
            Some(mode) => {
                state.sequential.filename = cat2("tapecpy-recovery.", mode.extension());
            },
            None => {},
        }
        state.sequential.path = crate::text::clone_opt(&state.files.path);
        state.sequential.view = SequentialView::Filename;
        return None;
    }
    if key == Key::Backspace || key == Key::Esc {
        let up = match &state.files.path {
            None => None,
            Some(current) => if at_mount_point(&state.files.mounts, current.as_str()) {
                None
            } else {
                parent(current.as_str())
            },
        };
        return match up {
            Some(p) => ask_for(state, p),
            None => {
                state.sequential.view = SequentialView::Mounts;
                None
            },
        };
    }
    if is_letter(key, 'q', 'Q') {
        state.sequential.view = SequentialView::Mounts;
    }
    None
}

fn on_filename(state: &mut UiState, key: Key) -> (effect: Option<Effect>)
    ensures
        filename_key(*old(state), key, *final(state), effect),
{
    match key {
        Key::Backspace => {
            state.sequential.filename = pop(&state.sequential.filename);
            None
        },
        Key::Char(c) => {
            if !is_control_char(c) && c != '/' {
                state.sequential.filename.push(c);
            }
            None
        },
        Key::Enter => {
            if state.sequential.filename.as_str().unicode_len() > 0 {
                match &state.sequential.path {
                    Some(directory) => Some(
                        Effect::CheckOutput(
                            join_path(
                                directory.as_str(),
                                state.sequential.filename.as_str(),
                            ),
                        ),
                    ),
                    None => None,
                }
            } else {
                None
            }
        },
        Key::Esc => {
            state.sequential.view = SequentialView::Directory;
            None
        },
        _ => None,
    }
}

fn on_confirm(state: &mut UiState, key: Key) -> (effect: Option<Effect>)
    ensures
        sequential_confirm_key(*old(state), key, *final(state), effect),
{
    let writes = is_writing(state);
    if is_letter(key, 'a', 'A') && writes {
        state.sequential.overwrite_ack = !state.sequential.overwrite_ack;
    } else if is_letter(key, 'v', 'V') && writes {
        state.start.read_back_verify = !state.start.read_back_verify;
    } else if is_letter(key, 'y', 'Y') {
        match find_refusal(state) {
            Some(text) => {
                state.note.status = text;
            },
            None => {
                return Some(Effect::StartSequential);
            },
        }
    } else if is_leaving(key) {
        state.sequential.view = SequentialView::Menu;
        state.sequential.path = None;
    }
    None
}

/// Takes a key on the page for sequential work.
pub fn handle_sequential_key(state: &mut UiState, key: Key) -> (effect: Option<Effect>)
    ensures
        sequential_key(*old(state), key, *final(state), effect),
{
    if state.files.busy {
        return None;
    }
    match state.sequential.view {
        SequentialView::Menu => on_menu(state, key),
        SequentialView::Mounts => on_mounts(state, key),
        SequentialView::Directory => on_directory(state, key),
        SequentialView::Filename => on_filename(state, key),
        SequentialView::Confirm => on_confirm(state, key),
    }
}

/// The path of a new image has been looked at; where there is nothing yet, the cartridge
/// and the room on the host are.
pub fn output_checked(state: &mut UiState, output: String, taken: bool) -> (effect: Option<Effect>)
    ensures
        if taken {
            only_tells(*old(state), "Destination already exists: "@ + output@, *final(state))
                && effect is None
        } else {
            assessed(*old(state), *final(state)) && final(state).sequential.path == Some(output)
                && (match effect {
                Some(Effect::Device(WorkerCommand::AssessSequential(p))) => opt_view(p)
                    == parent_spec(output@),
                _ => false,
            })
        },
{
    if taken {
        state.note.status = cat2("Destination already exists: ", output.as_str());
        return None;
    }
    let up = parent(output.as_str());
    state.sequential.path = Some(output);
    state.sequential.mam = None;
    state.sequential.space = None;
    state.note.busy = Some("Reading MAM and checking destination");
    Some(Effect::Device(WorkerCommand::AssessSequential(up)))
}

/// Sequential work that overwrites a volume, or what is not known, starts only where the
/// user has said so.
pub proof fn overwrite_needs_acknowledgement(s: UiState, key: Key, t: UiState, effect: Option<Effect>)
    requires
        sequential_key(s, key, t, effect),
        effect == Some(Effect::StartSequential),
    ensures
        s.sequential.view is Confirm,
        writing(s) && !(s.sequential.mam is Some && s.sequential.mam->0.status is NoLtfs)
            ==> s.sequential.overwrite_ack,
        !writing(s) ==> s.sequential.space is Some && s.sequential.space->0.sufficient,
{
}

} // verus!
