//! The keys of the page on which a write is prepared.
use vstd::prelude::*;
use vstd::string::*;

use super::browse::{
    at_mount_point, index_shown, is_mount_point, join_ltfs_path, ltfs_parent, ltfs_path,
    open_tape_directory, parent_of_ltfs, shown_index, source_toggled, tape_directory_opened,
    toggle_source_root,
};
use super::erase_keys::{
    is_down, is_letter, is_up, letter, moves_down, moves_up, only_tells,
};
use super::state::{
    one_down, one_up, step_down, step_towards, step_up, Effect, FileCommand, FilesPane, Key, Note, Page,
    SourceView, StartPane, UiState, WritePane,
};
use crate::app::mounts::BrowserEntryKind;
use crate::app::source::{
    destinations_spec, validate_write_destinations, CapacityAssessment, CapacityStatus,
};
use crate::job::order::CompletionAction;
use crate::paths::{parent, parent_spec};
use crate::text::{cat3, clone_list, decimal, decimal_spec, same, views};

verus! {

/// The effect browses a path.
pub open spec fn browses(effect: Option<Effect>, path: Seq<char>) -> bool {
    match effect {
        Some(Effect::File(FileCommand::Browse(p))) => p@ == path,
        _ => false,
    }
}

/// A host path is asked for.
pub open spec fn asks_for(s: UiState, path: Seq<char>, t: UiState, effect: Option<Effect>) -> bool {
    t == (UiState { files: FilesPane { busy: true, ..s.files }, ..s }) && browses(effect, path)
}

/// Nothing happens.
pub open spec fn nothing(s: UiState, t: UiState, effect: Option<Effect>) -> bool {
    t == s && effect is None
}

/// Asks for the directory at a path.
pub fn ask_for(state: &mut UiState, path: String) -> (effect: Option<Effect>)
    ensures
        asks_for(*old(state), path@, *final(state), effect),
{
    state.files.busy = true;
    Some(Effect::File(FileCommand::Browse(path)))
}

/// The room on the cartridge that is shown, as it remembers it.
pub open spec fn remaining_mib(s: UiState) -> Option<u64> {
    match s.device.snapshot {
        Some(snapshot) => match snapshot.media {
            Some(media) => match media.mam {
                Some(mam) => mam.remaining_capacity_mib,
                None => None,
            },
            None => None,
        },
        None => None,
    }
}

fn find_remaining(s: &UiState) -> (mib: Option<u64>)
    ensures
        mib == remaining_mib(*s),
{
    match &s.device.snapshot {
        Some(snapshot) => match &snapshot.media {
            Some(media) => match &media.mam {
                Some(mam) => mam.remaining_capacity_mib,
                None => None,
            },
            None => None,
        },
        None => None,
    }
}

/// The selected sources are scanned, where there are some.
pub open spec fn scan_started(s: UiState, t: UiState, effect: Option<Effect>) -> bool {
    if s.write.roots@.len() == 0 {
        only_tells(s, "Select at least one source with Space first"@, t) && effect is None
    } else {
        &&& t == (UiState {
            files: FilesPane { busy: true, ..s.files },
            note: Note { status: t.note.status, ..s.note },
            ..s
        })
        &&& t.note.status@ == "Scanning "@ + decimal_spec(s.write.roots@.len())
            + " selected source roots"@
        &&& match effect {
            Some(Effect::File(FileCommand::Scan(paths, mib))) => paths@ == s.write.roots@ && mib
                == remaining_mib(s),
            _ => false,
        }
    }
}

/// Scans the selected sources.
pub fn start_source_scan(state: &mut UiState) -> (effect: Option<Effect>)
    ensures
        scan_started(*old(state), *final(state), effect),
{
    if state.write.roots.len() == 0 {
        state.note.status = "Select at least one source with Space first".to_owned();
        return None;
    }
    let mib = find_remaining(state);
    state.files.busy = true;
    state.note.status = cat3(
        "Scanning ",
        decimal(state.write.roots.len() as u64).as_str(),
        " selected source roots",
    );
    Some(Effect::File(FileCommand::Scan(clone_list(&state.write.roots), mib)))
}

/// A capacity that is used only where the user has confirmed it.
pub open spec fn wants_ack(capacity: Option<CapacityAssessment>) -> bool {
    match capacity {
        Some(c) => c.status is WarningAboveNinetyPercent || c.status is Unknown,
        None => false,
    }
}

/// Whether the capacity has to be confirmed.
pub fn capacity_requires_ack(capacity: &Option<CapacityAssessment>) -> (yes: bool)
    ensures
        yes == wants_ack(*capacity),
{
    match capacity {
        Some(c) => c.status == CapacityStatus::WarningAboveNinetyPercent || c.status
            == CapacityStatus::Unknown,
        None => false,
    }
}

/// One level back.
pub open spec fn write_back(s: UiState) -> UiState {
    let b = UiState { start: StartPane { confirm: false, ..s.start }, ..s };
    match s.write.view {
        SourceView::Mounts => UiState { page: Page::Ltfs, ..b },
        SourceView::Directory => UiState {
            write: WritePane { view: SourceView::Mounts, ..s.write },
            files: FilesPane { index: 0, ..s.files },
            ..b
        },
        SourceView::Plan => UiState {
            write: WritePane {
                view: SourceView::Directory,
                plan: None,
                capacity: None,
                ..s.write
            },
            ..b
        },
        SourceView::LtfsDestination => UiState {
            write: WritePane { view: SourceView::Plan, ..s.write },
            ..b
        },
        SourceView::Confirm => UiState {
            write: WritePane { view: SourceView::LtfsDestination, tape_target: None, ..s.write },
            ..b
        },
    }
}

/// Goes one level back.
pub fn back_write_level(state: &mut UiState)
    ensures
        *final(state) == write_back(*old(state)),
{
    state.start.confirm = false;
    match state.write.view {
        SourceView::Mounts => {
            state.page = Page::Ltfs;
        },
        SourceView::Directory => {
            state.write.view = SourceView::Mounts;
            state.files.index = 0;
        },
        SourceView::Plan => {
            state.write.view = SourceView::Directory;
            state.write.plan = None;
            state.write.capacity = None;
        },
        SourceView::LtfsDestination => {
            state.write.view = SourceView::Plan;
        },
        SourceView::Confirm => {
            state.write.view = SourceView::LtfsDestination;
            state.write.tape_target = None;
        },
    }
}

/// The directory that is shown becomes the target, where everything can be written below
/// it.
pub open spec fn destination_selected(s: UiState, t: UiState) -> bool {
    match s.write.plan {
        None => only_tells(s, "Source plan is unavailable"@, t),
        Some(plan) => match shown_index(s) {
            None => only_tells(s, "Trusted LTFS index is unavailable"@, t),
            Some(index) => match destinations_spec(
                index.root@,
                views(plan.roots@),
                s.write.tape_directory@,
            ) {
                Err(message) => only_tells(s, message, t),
                Ok(_) => t == (UiState {
                    write: WritePane {
                        tape_target: Some(s.write.tape_directory),
                        view: SourceView::Confirm,
                        ..s.write
                    },
                    start: StartPane {
                        capacity_acknowledged: false,
                        confirm: false,
                        ..s.start
                    },
                    note: Note { status: t.note.status, ..s.note },
                    ..s
                }) && t.note.status@ == "Review the complete operation plan before starting"@,
            },
        },
    }
}

/// Makes the directory that is shown the target.
pub fn select_tape_destination(state: &mut UiState)
    ensures
        destination_selected(*old(state), *final(state)),
{
    let refusal: Option<String> = match &state.write.plan {
        None => Some("Source plan is unavailable".to_owned()),
        Some(plan) => match index_shown(state) {
            None => Some("Trusted LTFS index is unavailable".to_owned()),
            Some(index) => match validate_write_destinations(
                index,
                &plan.roots,
                state.write.tape_directory.as_str(),
            ) {
                Ok(_) => None,
                Err(message) => Some(message),
            },
        },
    };
    match refusal {
        Some(message) => {
            state.note.status = message;
        },
        None => {
            state.write.tape_target = Some(state.write.tape_directory.clone());
            state.start.capacity_acknowledged = false;
            state.start.confirm = false;
            state.write.view = SourceView::Confirm;
            state.note.status = "Review the complete operation plan before starting".to_owned();
        },
    }
}

// ---------------------------------------------------------------------------
// The keys of each view
// ---------------------------------------------------------------------------

/// A key on the list of mounts.
pub open spec fn mounts_key(s: UiState, key: Key, t: UiState, effect: Option<Effect>) -> bool {
    let k = s.files.index as int;
    if key is Enter && k < s.files.mounts@.len() {
        asks_for(s, s.files.mounts@[k].mount_point@, t, effect)
    } else if key == Key::Char(' ') && k < s.files.mounts@.len() {
        source_toggled(s, s.files.mounts@[k].mount_point, t) && effect is None
    } else if letter(key, 's', 'S') {
        scan_started(s, t, effect)
    } else {
        nothing(s, t, effect)
    }
}

/// The way up from a host directory: to its parent, or to the mounts from the root of one.
pub open spec fn way_up(s: UiState, up: UiState, t: UiState, effect: Option<Effect>) -> bool {
    match s.files.path {
        None => nothing(s, t, effect),
        Some(current) => if is_mount_point(s.files.mounts@, current@) {
            t == up && effect is None
        } else {
            match parent_spec(current@) {
                Some(p) => asks_for(s, p, t, effect),
                None => nothing(s, t, effect),
            }
        },
    }
}

/// A key in a host directory.
pub open spec fn directory_key(s: UiState, key: Key, t: UiState, effect: Option<Effect>) -> bool {
    let k = s.files.index as int;
    let there = k < s.files.entries@.len();
    let entry = s.files.entries@[k];
    if key is Enter && there && entry.kind is Directory {
        asks_for(s, entry.path@, t, effect)
    } else if key == Key::Char(' ') && there && (entry.kind is Directory || entry.kind is File) {
        source_toggled(s, entry.path, t) && effect is None
    } else if letter(key, 's', 'S') {
        scan_started(s, t, effect)
    } else if key is Backspace || key is Esc {
        way_up(
            s,
            UiState {
                write: WritePane { view: SourceView::Mounts, ..s.write },
                files: FilesPane { index: 0, ..s.files },
                ..s
            },
            t,
            effect,
        )
    } else {
        nothing(s, t, effect)
    }
}

/// A key on the plan.
pub open spec fn plan_key(s: UiState, key: Key, t: UiState, effect: Option<Effect>) -> bool {
    if key is Esc {
        t == (UiState {
            write: WritePane {
                view: SourceView::Directory,
                plan: None,
                capacity: None,
                ..s.write
            },
            ..s
        }) && effect is None
    } else if key is Enter {
        tape_directory_opened(s, "/"@, t) && effect is None
    } else {
        nothing(s, t, effect)
    }
}

/// A key among the directories of the volume.
pub open spec fn destination_key(s: UiState, key: Key, t: UiState, effect: Option<Effect>) -> bool {
    let k = s.files.index as int;
    if key is Enter && k == 0 {
        destination_selected(s, t) && effect is None
    } else if key is Enter && k - 1 < s.write.tape_directories@.len() {
        tape_directory_opened(
            s,
            ltfs_path(s.write.tape_directory@, s.write.tape_directories@[k - 1]@),
            t,
        ) && effect is None
    } else if key is Backspace || key is Esc {
        if s.write.tape_directory@ == "/"@ {
            t == (UiState { write: WritePane { view: SourceView::Plan, ..s.write }, ..s })
                && effect is None
        } else {
            tape_directory_opened(s, ltfs_parent(s.write.tape_directory@), t) && effect is None
        }
    } else {
        nothing(s, t, effect)
    }
}

/// A key on the last page before a write.
pub open spec fn confirm_key(s: UiState, key: Key, t: UiState, effect: Option<Effect>) -> bool {
    let st = s.start;
    if letter(key, 'a', 'A') && wants_ack(s.write.capacity) {
        t == (UiState {
            start: StartPane { capacity_acknowledged: !st.capacity_acknowledged, ..st },
            ..s
        }) && effect is None
    } else if letter(key, 'v', 'V') && !st.confirm {
        t == (UiState {
            start: StartPane { read_back_verify: !st.read_back_verify, ..st },
            ..s
        }) && effect is None
    } else if letter(key, 'e', 'E') && !st.confirm {
        t == (UiState {
            start: StartPane {
                completion_action: match st.completion_action {
                    CompletionAction::KeepLoaded => CompletionAction::EjectAfterCommit,
                    CompletionAction::EjectAfterCommit => CompletionAction::KeepLoaded,
                },
                ..st
            },
            ..s
        }) && effect is None
    } else if key is Enter {
        if s.write.capacity is Some && s.write.capacity->0.status is BlockedInsufficient {
            only_tells(s, "Start blocked: source exceeds LTFS available capacity"@, t)
                && effect is None
        } else if wants_ack(s.write.capacity) && !st.capacity_acknowledged {
            only_tells(s, "Press A to acknowledge the capacity warning first"@, t)
                && effect is None
        } else {
            t == (UiState { start: StartPane { confirm: true, ..st }, ..s }) && effect is None
        }
    } else if letter(key, 'y', 'Y') && st.confirm {
        t == s && effect == Some(Effect::StartWrite)
    } else if (letter(key, 'n', 'N') || key is Esc) && st.confirm {
        t == (UiState { start: StartPane { confirm: false, ..st }, ..s }) && effect is None
    } else if key is Esc {
        t == (UiState {
            write: WritePane { view: SourceView::LtfsDestination, tape_target: None, ..s.write },
            ..s
        }) && effect is None
    } else {
        nothing(s, t, effect)
    }
}

/// How many entries the view has.
pub open spec fn source_length(s: UiState) -> nat {
    match s.write.view {
        SourceView::Mounts => s.files.mounts@.len(),
        SourceView::Directory => s.files.entries@.len(),
        SourceView::LtfsDestination => s.write.tape_directories@.len() + 1,
        SourceView::Plan => 0,
        SourceView::Confirm => 0,
    }
}

/// What a key does on the page on which a write is prepared.
pub open spec fn source_key(s: UiState, key: Key, t: UiState, effect: Option<Effect>) -> bool {
    if s.files.busy {
        if key is Esc {
            only_tells(s, "The current filesystem request cannot be cancelled yet"@, t)
                && effect is None
        } else {
            nothing(s, t, effect)
        }
    } else if letter(key, 'q', 'Q') {
        t == write_back(s) && effect is None
    } else if moves_up(key) {
        t == (UiState { files: FilesPane { index: one_up(s.files.index), ..s.files }, ..s })
            && effect is None
    } else if moves_down(key) {
        t == (UiState {
            files: FilesPane { index: one_down(s.files.index, source_length(s)), ..s.files },
            ..s
        }) && effect is None
    } else {
        match s.write.view {
            SourceView::Mounts => mounts_key(s, key, t, effect),
            SourceView::Directory => directory_key(s, key, t, effect),
            SourceView::Plan => plan_key(s, key, t, effect),
            SourceView::LtfsDestination => destination_key(s, key, t, effect),
            SourceView::Confirm => confirm_key(s, key, t, effect),
        }
    }
}

fn on_mounts(state: &mut UiState, key: Key) -> (effect: Option<Effect>)
    ensures
        mounts_key(*old(state), key, *final(state), effect),
{
    let k: usize = state.files.index;
    if key == Key::Enter && k < state.files.mounts.len() {
        let path = state.files.mounts[k].mount_point.clone();
        return ask_for(state, path);
    }
    if key == Key::Char(' ') && k < state.files.mounts.len() {
        let path = state.files.mounts[k].mount_point.clone();
        toggle_source_root(state, path);
        return None;
    }
    if is_letter(key, 's', 'S') {
        return start_source_scan(state);
    }
    None
}

fn on_directory(state: &mut UiState, key: Key) -> (effect: Option<Effect>)
    ensures
        directory_key(*old(state), key, *final(state), effect),
{
    let k: usize = state.files.index;
    let there = k < state.files.entries.len();
    let kind = if there {
        state.files.entries[k].kind
    } else {
        BrowserEntryKind::Other
    };
    if key == Key::Enter && there && kind == BrowserEntryKind::Directory {
        let path = state.files.entries[k].path.clone();
        return ask_for(state, path);
    }
    if key == Key::Char(' ') && there && (kind == BrowserEntryKind::Directory || kind
        == BrowserEntryKind::File) {
        let path = state.files.entries[k].path.clone();
        toggle_source_root(state, path);
        return None;
    }
    if is_letter(key, 's', 'S') {
        return start_source_scan(state);
    }
    if key == Key::Backspace || key == Key::Esc {
        let up = match &state.files.path {
            None => {
                return None;
            },
            Some(current) => if at_mount_point(&state.files.mounts, current.as_str()) {
                None
            } else {
                match parent(current.as_str()) {
                    Some(p) => Some(p),
                    None => {
                        return None;
                    },
                }
            },
        };
        return match up {
            Some(p) => ask_for(state, p),
            None => {
                state.write.view = SourceView::Mounts;
                state.files.index = 0;
                None
            },
        };
    }
    None
}

fn on_plan(state: &mut UiState, key: Key) -> (effect: Option<Effect>)
    ensures
        plan_key(*old(state), key, *final(state), effect),
{
    if key == Key::Esc {
        state.write.view = SourceView::Directory;
        state.write.plan = None;
        state.write.capacity = None;
    } else if key == Key::Enter {
        open_tape_directory(state, "/");
    }
    None
}

fn on_destination(state: &mut UiState, key: Key) -> (effect: Option<Effect>)
    ensures
        destination_key(*old(state), key, *final(state), effect),
{
    let k: usize = state.files.index;
    if key == Key::Enter && k == 0 {
        select_tape_destination(state);
    } else if key == Key::Enter && k - 1 < state.write.tape_directories.len() {
        let path = join_ltfs_path(
            state.write.tape_directory.as_str(),
            state.write.tape_directories[k - 1].as_str(),
        );
        open_tape_directory(state, path.as_str());
    } else if key == Key::Backspace || key == Key::Esc {
        if same(state.write.tape_directory.as_str(), "/") {
            state.write.view = SourceView::Plan;
        } else {
            let up = parent_of_ltfs(state.write.tape_directory.as_str());
            open_tape_directory(state, up.as_str());
        }
    }
    None
}

fn on_confirm(state: &mut UiState, key: Key) -> (effect: Option<Effect>)
    ensures
        confirm_key(*old(state), key, *final(state), effect),
{
    let asks = capacity_requires_ack(&state.write.capacity);
    if is_letter(key, 'a', 'A') && asks {
        state.start.capacity_acknowledged = !state.start.capacity_acknowledged;
    } else if is_letter(key, 'v', 'V') && !state.start.confirm {
        state.start.read_back_verify = !state.start.read_back_verify;
    } else if is_letter(key, 'e', 'E') && !state.start.confirm {
        state.start.completion_action = match state.start.completion_action {
            CompletionAction::KeepLoaded => CompletionAction::EjectAfterCommit,
            CompletionAction::EjectAfterCommit => CompletionAction::KeepLoaded,
        };
    } else if key == Key::Enter {
        let blocked = match &state.write.capacity {
            Some(c) => c.status == CapacityStatus::BlockedInsufficient,
            None => false,
        };
        if blocked {
            state.note.status =
            "Start blocked: source exceeds LTFS available capacity".to_owned();
        } else if asks && !state.start.capacity_acknowledged {
            state.note.status = "Press A to acknowledge the capacity warning first".to_owned();
        } else {
            state.start.confirm = true;
        }
    } else if is_letter(key, 'y', 'Y') && state.start.confirm {
        return Some(Effect::StartWrite);
    } else if (is_letter(key, 'n', 'N') || key == Key::Esc) && state.start.confirm {
        state.start.confirm = false;
    } else if key == Key::Esc {
        state.write.view = SourceView::LtfsDestination;
        state.write.tape_target = None;
    }
    None
}

/// Takes a key on the page on which a write is prepared.
pub fn handle_source_key(state: &mut UiState, key: Key) -> (effect: Option<Effect>)
    ensures
        source_key(*old(state), key, *final(state), effect),
{
    if state.files.busy {
        if key == Key::Esc {
            state.note.status =
            "The current filesystem request cannot be cancelled yet".to_owned();
        }
        return None;
    }
    if is_letter(key, 'q', 'Q') {
        back_write_level(state);
        return None;
    }
    if is_up(key) {
        state.files.index = step_up(state.files.index);
        return None;
    }
    if is_down(key) {
        state.files.index = match state.write.view {
            SourceView::Mounts => step_down(state.files.index, state.files.mounts.len()),
            SourceView::Directory => step_down(state.files.index, state.files.entries.len()),
            SourceView::LtfsDestination => step_towards(
                state.files.index,
                state.write.tape_directories.len(),
            ),
            SourceView::Plan => 0,
            SourceView::Confirm => 0,
        };
        return None;
    }
    match state.write.view {
        SourceView::Mounts => on_mounts(state, key),
        SourceView::Directory => on_directory(state, key),
        SourceView::Plan => on_plan(state, key),
        SourceView::LtfsDestination => on_destination(state, key),
        SourceView::Confirm => on_confirm(state, key),
    }
}

/// A write starts only from its last page, once the user has confirmed it.
pub proof fn write_needs_confirmation(s: UiState, key: Key, t: UiState, effect: Option<Effect>)
    requires
        source_key(s, key, t, effect),
        effect == Some(Effect::StartWrite),
    ensures
        s.write.view is Confirm,
        s.start.confirm,
        letter(key, 'y', 'Y'),
{
}

/// The start is offered only where the source fits, and, where that is not sure, the user
/// has said so.
pub proof fn start_is_offered_where_it_fits(s: UiState, key: Key, t: UiState, effect: Option<Effect>)
    requires
        source_key(s, key, t, effect),
        !s.start.confirm,
        t.start.confirm,
    ensures
        !(s.write.capacity is Some && s.write.capacity->0.status is BlockedInsufficient),
        wants_ack(s.write.capacity) ==> s.start.capacity_acknowledged,
{
}

} // verus!
